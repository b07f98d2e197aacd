//! The arguments of the semantic tools, `save_cad_plan` and
//! `update_chat_summary`, checked and normalized before anything is saved.
use vstd::prelude::*;
use crate::json_args::{
    FieldView, JsonField, field_list, field_text, field_view, fields_view, json_fields, keys_view, next_field, read_fields,
    take_text,
};
use crate::model::CadQueryObjectKind;
use crate::scope::opt_string;
use crate::plan_package::{SaveCadPlanPackageInput, string_views};
use crate::text::{
    append_chars, append_lit, chars_of, ends_with, ends_with_lit, eq_lit, seq_eq, str_seq_views, string_of, trim,
    trim_exec,
};
use crate::tool_policy::{ToolPolicyError, denied, invalid, items_view};
use crate::workspace_path::{
    PathRejection, file_stem, file_stem_exec, first_segment, first_segment_exec, normalize_trimmed_path,
    normalize_trimmed_path_exec, supported_export_extension, supported_export_extension_exec,
};

verus! {

/// A string-array argument as parsed.
#[derive(Debug, Clone, PartialEq, Eq)]
pub enum StringArrayArg {
    /// The argument is missing.
    Absent,
    /// Present, but not an array.
    NotArray,
    /// The items; one that is not a string is `None`.
    Items(Vec<Option<String>>),
}

pub open spec fn string_array_view(a: StringArrayArg) -> Option<Option<Seq<Option<Seq<char>>>>> {
    match a {
        StringArrayArg::Absent => None,
        StringArrayArg::NotArray => Some(None),
        StringArrayArg::Items(v) => Some(Some(items_view(v@))),
    }
}

/// A list argument from its field: absent, not an array, or its items.
pub fn take_string_array(f: JsonField) -> (r: StringArrayArg)
    ensures
        string_array_view(r) == field_list(field_view(f)),
{
    match f {
        JsonField::Absent => StringArrayArg::Absent,
        JsonField::Items(v) => StringArrayArg::Items(v),
        _ => StringArrayArg::NotArray,
    }
}

pub type Err2 = (Seq<char>, Seq<char>);

pub open spec fn err_view<T>(r: Result<T, ToolPolicyError>) -> Result<(), Err2> {
    match r {
        Ok(_) => Ok(()),
        Err(e) => Err(e@),
    }
}

// ---------------------------------------------------------------------------
// Single arguments

pub open spec fn opt_text(o: Option<String>) -> Option<Seq<char>> {
    match o {
        Some(s) => Some(s@),
        None => None,
    }
}

/// A required string argument, trimmed; missing, not a string, or blank is
/// an error.
pub open spec fn required_text(o: Option<Seq<char>>, key: Seq<char>) -> Result<Seq<char>, Err2> {
    let t = match o {
        Some(s) => trim(s),
        None => Seq::empty(),
    };
    if t.len() == 0 {
        Err(invalid("missing required string argument '"@ + key + "'"@))
    } else {
        Ok(t)
    }
}

pub open spec fn text_result(r: Result<String, ToolPolicyError>) -> Result<Seq<char>, Err2> {
    match r {
        Ok(s) => Ok(s@),
        Err(e) => Err(e@),
    }
}

fn invalid_error(message: Vec<char>) -> (r: ToolPolicyError)
    ensures
        r@ == invalid(message@),
{
    ToolPolicyError { message: string_of(&message), error_type: "invalid_arguments" }
}

fn denied_error(message: Vec<char>) -> (r: ToolPolicyError)
    ensures
        r@ == denied(message@),
{
    ToolPolicyError { message: string_of(&message), error_type: "permission_denied" }
}

pub fn non_empty_string_arg(value: &Option<String>, key: &str) -> (r: Result<String, ToolPolicyError>)
    ensures
        text_result(r) == required_text(opt_text(*value), key@),
{
    let t = match value {
        Some(s) => trim_exec(&chars_of(s.as_str())),
        None => Vec::new(),
    };
    if t.len() == 0 {
        let mut m = chars_of("missing required string argument '");
        append_lit(&mut m, key);
        append_lit(&mut m, "'");
        Err(invalid_error(m))
    } else {
        Ok(string_of(&t))
    }
}

/// The items of a string-array argument: none when it is missing; an error
/// when it is no array or holds a non-string.
pub open spec fn string_items(a: StringArrayArg, key: Seq<char>) -> Result<Seq<Seq<char>>, Err2> {
    match a {
        StringArrayArg::Absent => Ok(Seq::empty()),
        StringArrayArg::NotArray => Err(invalid("'"@ + key + "' must be an array of strings"@)),
        StringArrayArg::Items(v) => if forall|i: int| 0 <= i < v@.len() ==> (#[trigger] v@[i]) is Some {
            Ok(Seq::new(v@.len(), |i: int| v@[i]->0@))
        } else {
            Err(invalid("'"@ + key + "' must be an array of strings"@))
        },
    }
}

pub open spec fn texts_result(r: Result<Vec<String>, ToolPolicyError>) -> Result<Seq<Seq<char>>, Err2> {
    match r {
        Ok(v) => Ok(string_views(v@)),
        Err(e) => Err(e@),
    }
}

fn array_error(key: &str) -> (r: ToolPolicyError)
    ensures
        r@ == invalid("'"@ + key@ + "' must be an array of strings"@),
{
    let mut m = chars_of("'");
    append_lit(&mut m, key);
    append_lit(&mut m, "' must be an array of strings");
    invalid_error(m)
}

pub fn optional_string_array(value: &StringArrayArg, key: &str) -> (r: Result<Vec<String>, ToolPolicyError>)
    ensures
        texts_result(r) == string_items(*value, key@),
{
    match value {
        StringArrayArg::Absent => {
            let v: Vec<String> = Vec::new();
            proof {
                assert(string_views(v@) =~= Seq::<Seq<char>>::empty());
            }
            Ok(v)
        },
        StringArrayArg::NotArray => Err(array_error(key)),
        StringArrayArg::Items(items) => {
            let mut out: Vec<String> = Vec::new();
            let mut i: usize = 0;
            while i < items.len()
                invariant
                    i <= items.len(),
                    *value == StringArrayArg::Items(*items),
                    out@.len() == i,
                    forall|j: int| 0 <= j < i ==> (#[trigger] items@[j]) is Some && out@[j]@ == items@[j]->0@,
                decreases items.len() - i,
            {
                match &items[i] {
                    Some(s) => out.push(s.clone()),
                    None => {
                        proof {
                            assert(items@[i as int] is None);
                            assert(!(forall|j: int| 0 <= j < items@.len() ==> (#[trigger] items@[j]) is Some));
                        }
                        return Err(array_error(key));
                    },
                }
                i = i + 1;
            }
            proof {
                assert(string_views(out@) =~= Seq::new(items@.len(), |j: int| items@[j]->0@));
            }
            Ok(out)
        },
    }
}

// ---------------------------------------------------------------------------
// Paths

/// Roots that no relation path may start with.
pub open spec fn denied_relation_roots() -> Seq<Seq<char>> {
    seq![".git"@, "target"@, "node_modules"@, "chats"@, "outputs"@, ".budn_staging"@]
}

/// Roots that a plan's scope paths may start with.
pub open spec fn plan_scope_roots() -> Seq<Seq<char>> {
    seq!["components"@, "parts"@, "assemblies"@, "plans"@, "refs"@, "docs"@]
}

/// Roots of CadQuery model sources.
pub open spec fn model_roots() -> Seq<Seq<char>> {
    seq!["components"@, "parts"@, "assemblies"@]
}

/// Roots that a chat summary's related files may start with.
pub open spec fn chat_related_roots() -> Seq<Seq<char>> {
    seq!["components"@, "parts"@, "assemblies"@, "plans"@, "refs"@, "docs"@, "outputs"@]
}

/// Roots that a chat summary's related files may not start with.
pub open spec fn chat_denied_roots() -> Seq<Seq<char>> {
    seq![".git"@, "target"@, "node_modules"@, "chats"@, ".budn_staging"@]
}

fn denied_relation_roots_exec() -> (r: Vec<&'static str>)
    ensures
        str_seq_views(r@) == denied_relation_roots(),
{
    let r = vec![".git", "target", "node_modules", "chats", "outputs", ".budn_staging"];
    proof {
        assert(str_seq_views(r@) =~= denied_relation_roots());
    }
    r
}

fn plan_scope_roots_exec() -> (r: Vec<&'static str>)
    ensures
        str_seq_views(r@) == plan_scope_roots(),
{
    let r = vec!["components", "parts", "assemblies", "plans", "refs", "docs"];
    proof {
        assert(str_seq_views(r@) =~= plan_scope_roots());
    }
    r
}

fn model_roots_exec() -> (r: Vec<&'static str>)
    ensures
        str_seq_views(r@) == model_roots(),
{
    let r = vec!["components", "parts", "assemblies"];
    proof {
        assert(str_seq_views(r@) =~= model_roots());
    }
    r
}

fn chat_related_roots_exec() -> (r: Vec<&'static str>)
    ensures
        str_seq_views(r@) == chat_related_roots(),
{
    let r = vec!["components", "parts", "assemblies", "plans", "refs", "docs", "outputs"];
    proof {
        assert(str_seq_views(r@) =~= chat_related_roots());
    }
    r
}

fn chat_denied_roots_exec() -> (r: Vec<&'static str>)
    ensures
        str_seq_views(r@) == chat_denied_roots(),
{
    let r = vec![".git", "target", "node_modules", "chats", ".budn_staging"];
    proof {
        assert(str_seq_views(r@) =~= chat_denied_roots());
    }
    r
}

fn has_root(roots: &Vec<&'static str>, root: &[char]) -> (r: bool)
    ensures
        r == str_seq_views(roots@).contains(root@),
{
    let mut i: usize = 0;
    while i < roots.len()
        invariant
            i <= roots.len(),
            forall|j: int| 0 <= j < i ==> str_seq_views(roots@)[j] != root@,
        decreases roots.len() - i,
    {
        if eq_lit(root, roots[i]) {
            proof {
                assert(str_seq_views(roots@)[i as int] == root@);
            }
            return true;
        }
        i = i + 1;
    }
    proof {
        if str_seq_views(roots@).contains(root@) {
            let k = choose|k: int| 0 <= k < str_seq_views(roots@).len() && str_seq_views(roots@)[k] == root@;
            assert(str_seq_views(roots@)[k] != root@);
        }
    }
    false
}

/// A workspace path normalized as the semantic tools do it: trimmed,
/// backslashes made slashes, empty, absolute, drive and parent paths
/// refused.
pub open spec fn workspace_path(path: Seq<char>) -> Result<Seq<char>, Err2> {
    match normalize_trimmed_path(path) {
        Ok(p) => Ok(p),
        Err(PathRejection::NotWorkspaceRelative) => Err(denied("path must be workspace-relative"@)),
        Err(PathRejection::ParentSegment) => Err(denied("path must not contain '..'"@)),
    }
}

pub fn normalize_workspace_path(path: &str) -> (r: Result<String, ToolPolicyError>)
    ensures
        text_result(r) == workspace_path(path@),
{
    match normalize_trimmed_path_exec(&chars_of(path)) {
        Ok(p) => Ok(string_of(&p)),
        Err(PathRejection::NotWorkspaceRelative) => Err(denied_error(chars_of("path must be workspace-relative"))),
        Err(PathRejection::ParentSegment) => Err(denied_error(chars_of("path must not contain '..'"))),
    }
}

/// A normalized path whose root is not denied and is among the allowed.
pub open spec fn allowed_path(path: Seq<char>, allowed: Seq<Seq<char>>, denied_roots: Seq<Seq<char>>) -> Result<
    Seq<char>,
    Err2,
> {
    match workspace_path(path) {
        Err(e) => Err(e),
        Ok(p) => {
            let root = first_segment(p);
            if denied_roots.contains(root) {
                Err(denied("path root '"@ + root + "' is denied for this tool"@))
            } else if allowed.contains(root) {
                Ok(p)
            } else {
                Err(denied("path root '"@ + root + "' is not allowed for this tool"@))
            }
        },
    }
}

fn allowed_path_exec(path: &str, allowed: &Vec<&'static str>, denied_roots: &Vec<&'static str>) -> (r: Result<
    String,
    ToolPolicyError,
>)
    ensures
        text_result(r) == allowed_path(path@, str_seq_views(allowed@), str_seq_views(denied_roots@)),
{
    let p = match normalize_workspace_path(path) {
        Ok(p) => p,
        Err(e) => return Err(e),
    };
    let root = first_segment_exec(&chars_of(p.as_str()));
    if has_root(denied_roots, &root) {
        let mut m = chars_of("path root '");
        append_chars(&mut m, &root);
        append_lit(&mut m, "' is denied for this tool");
        return Err(denied_error(m));
    }
    if has_root(allowed, &root) {
        Ok(p)
    } else {
        let mut m = chars_of("path root '");
        append_chars(&mut m, &root);
        append_lit(&mut m, "' is not allowed for this tool");
        Err(denied_error(m))
    }
}

/// A path normalized and held to `allowed_roots` (and the denied relation
/// roots), as `save_cad_plan` checks its scope paths.
pub fn normalize_allowed_path(path: &str, allowed_roots: &Vec<&'static str>) -> (r: Result<String, ToolPolicyError>)
    ensures
        text_result(r) == allowed_path(path@, str_seq_views(allowed_roots@), denied_relation_roots()),
{
    allowed_path_exec(path, allowed_roots, &denied_relation_roots_exec())
}

/// Each path through `check`, in order; the first error stops.
pub open spec fn all_paths(
    paths: Seq<Seq<char>>,
    allowed: Seq<Seq<char>>,
    denied_roots: Seq<Seq<char>>,
) -> Result<Seq<Seq<char>>, Err2>
    decreases paths.len(),
{
    if paths.len() == 0 {
        Ok(Seq::empty())
    } else {
        match all_paths(paths.drop_last(), allowed, denied_roots) {
            Err(e) => Err(e),
            Ok(done) => match allowed_path(paths.last(), allowed, denied_roots) {
                Err(e) => Err(e),
                Ok(p) => Ok(done.push(p)),
            },
        }
    }
}

fn all_paths_exec(paths: &Vec<String>, allowed: &Vec<&'static str>, denied_roots: &Vec<&'static str>) -> (r: Result<
    Vec<String>,
    ToolPolicyError,
>)
    ensures
        texts_result(r) == all_paths(string_views(paths@), str_seq_views(allowed@), str_seq_views(denied_roots@)),
{
    let ghost all = string_views(paths@);
    let ghost a = str_seq_views(allowed@);
    let ghost d = str_seq_views(denied_roots@);
    let mut out: Vec<String> = Vec::new();
    let mut i: usize = 0;
    proof {
        assert(all.take(0) =~= Seq::<Seq<char>>::empty());
        assert(string_views(out@) =~= Seq::<Seq<char>>::empty());
    }
    while i < paths.len()
        invariant
            i <= paths.len(),
            all == string_views(paths@),
            a == str_seq_views(allowed@),
            d == str_seq_views(denied_roots@),
            all_paths(all.take(i as int), a, d) == Ok::<Seq<Seq<char>>, Err2>(string_views(out@)),
        decreases paths.len() - i,
    {
        proof {
            assert(all.take(i + 1).drop_last() =~= all.take(i as int));
            assert(all.take(i + 1).last() == paths@[i as int]@);
        }
        match allowed_path_exec(paths[i].as_str(), allowed, denied_roots) {
            Err(e) => {
                proof {
                    assert(all_paths(all, a, d) == Err::<Seq<Seq<char>>, Err2>(e@)) by {
                        lemma_all_paths_stops(all, a, d, i as int + 1);
                    }
                }
                return Err(e);
            },
            Ok(p) => {
                let ghost before = string_views(out@);
                out.push(p);
                proof {
                    assert(string_views(out@) =~= before.push(p@));
                }
            },
        }
        i = i + 1;
    }
    proof {
        assert(all.take(all.len() as int) =~= all);
    }
    Ok(out)
}

/// Once a prefix fails, the whole list fails with the same error.
proof fn lemma_all_paths_stops(paths: Seq<Seq<char>>, allowed: Seq<Seq<char>>, denied_roots: Seq<Seq<char>>, k: int)
    requires
        0 <= k <= paths.len(),
        all_paths(paths.take(k), allowed, denied_roots) is Err,
    ensures
        all_paths(paths, allowed, denied_roots) == all_paths(paths.take(k), allowed, denied_roots),
    decreases paths.len() - k,
{
    if k < paths.len() {
        assert(paths.take(k + 1).drop_last() =~= paths.take(k));
        lemma_all_paths_stops(paths, allowed, denied_roots, k + 1);
    } else {
        assert(paths.take(k) =~= paths);
    }
}

/// The scope paths of a plan argument: strings, each allowed under the
/// plan roots; with `required`, at least one.
pub open spec fn scope_paths(a: StringArrayArg, key: Seq<char>, required: bool) -> Result<Seq<Seq<char>>, Err2> {
    match string_items(a, key) {
        Err(e) => Err(e),
        Ok(items) => match all_paths(items, plan_scope_roots(), denied_relation_roots()) {
            Err(e) => Err(e),
            Ok(ps) => if required && ps.len() == 0 {
                Err(invalid("'"@ + key + "' must contain at least one path"@))
            } else {
                Ok(ps)
            },
        },
    }
}

fn scope_paths_exec(a: &StringArrayArg, key: &str, required: bool) -> (r: Result<Vec<String>, ToolPolicyError>)
    ensures
        texts_result(r) == scope_paths(*a, key@, required),
{
    let items = match optional_string_array(a, key) {
        Ok(v) => v,
        Err(e) => return Err(e),
    };
    let ps = match all_paths_exec(&items, &plan_scope_roots_exec(), &denied_relation_roots_exec()) {
        Ok(v) => v,
        Err(e) => return Err(e),
    };
    if required && ps.len() == 0 {
        let mut m = chars_of("'");
        append_lit(&mut m, key);
        append_lit(&mut m, "' must contain at least one path");
        return Err(invalid_error(m));
    }
    Ok(ps)
}

/// An export target: normalized, under `outputs/`, of a supported
/// extension.
pub open spec fn export_target(path: Seq<char>) -> Result<Seq<char>, Err2> {
    match workspace_path(path) {
        Err(e) => Err(e),
        Ok(p) => if first_segment(p) != "outputs"@ {
            Err(denied("export_targets must be under outputs/"@))
        } else if supported_export_extension(p) {
            Ok(p)
        } else {
            Err(invalid("export_targets must use .step, .stl, or .3mf"@))
        },
    }
}

pub fn normalize_export_target(path: &str) -> (r: Result<String, ToolPolicyError>)
    ensures
        text_result(r) == export_target(path@),
{
    let p = match normalize_workspace_path(path) {
        Ok(p) => p,
        Err(e) => return Err(e),
    };
    let pc = chars_of(p.as_str());
    if !eq_lit(&first_segment_exec(&pc), "outputs") {
        return Err(denied_error(chars_of("export_targets must be under outputs/")));
    }
    if supported_export_extension_exec(&pc) {
        Ok(p)
    } else {
        Err(invalid_error(chars_of("export_targets must use .step, .stl, or .3mf")))
    }
}

pub open spec fn all_export_targets(paths: Seq<Seq<char>>) -> Result<Seq<Seq<char>>, Err2>
    decreases paths.len(),
{
    if paths.len() == 0 {
        Ok(Seq::empty())
    } else {
        match all_export_targets(paths.drop_last()) {
            Err(e) => Err(e),
            Ok(done) => match export_target(paths.last()) {
                Err(e) => Err(e),
                Ok(p) => Ok(done.push(p)),
            },
        }
    }
}

proof fn lemma_all_exports_stops(paths: Seq<Seq<char>>, k: int)
    requires
        0 <= k <= paths.len(),
        all_export_targets(paths.take(k)) is Err,
    ensures
        all_export_targets(paths) == all_export_targets(paths.take(k)),
    decreases paths.len() - k,
{
    if k < paths.len() {
        assert(paths.take(k + 1).drop_last() =~= paths.take(k));
        lemma_all_exports_stops(paths, k + 1);
    } else {
        assert(paths.take(k) =~= paths);
    }
}

/// The plan's export targets: strings, each a valid export target, at
/// least one.
pub open spec fn plan_export_targets(a: StringArrayArg) -> Result<Seq<Seq<char>>, Err2> {
    match string_items(a, "export_targets"@) {
        Err(e) => Err(e),
        Ok(items) => match all_export_targets(items) {
            Err(e) => Err(e),
            Ok(ts) => if ts.len() == 0 {
                Err(invalid("'export_targets' must contain at least one path"@))
            } else {
                Ok(ts)
            },
        },
    }
}

pub fn export_targets(a: &StringArrayArg) -> (r: Result<Vec<String>, ToolPolicyError>)
    ensures
        texts_result(r) == plan_export_targets(*a),
{
    let items = match optional_string_array(a, "export_targets") {
        Ok(v) => v,
        Err(e) => return Err(e),
    };
    let ghost all = string_views(items@);
    let mut out: Vec<String> = Vec::new();
    let mut i: usize = 0;
    proof {
        assert(all.take(0) =~= Seq::<Seq<char>>::empty());
        assert(string_views(out@) =~= Seq::<Seq<char>>::empty());
    }
    while i < items.len()
        invariant
            i <= items.len(),
            all == string_views(items@),
            string_items(*a, "export_targets"@) == Ok::<Seq<Seq<char>>, Err2>(all),
            all_export_targets(all.take(i as int)) == Ok::<Seq<Seq<char>>, Err2>(string_views(out@)),
        decreases items.len() - i,
    {
        proof {
            assert(all.take(i + 1).drop_last() =~= all.take(i as int));
            assert(all.take(i + 1).last() == items@[i as int]@);
        }
        match normalize_export_target(items[i].as_str()) {
            Err(e) => {
                proof {
                    assert(all_export_targets(all) == Err::<Seq<Seq<char>>, Err2>(e@)) by {
                        lemma_all_exports_stops(all, i as int + 1);
                    }
                }
                return Err(e);
            },
            Ok(p) => {
                let ghost before = string_views(out@);
                out.push(p);
                proof {
                    assert(string_views(out@) =~= before.push(p@));
                }
            },
        }
        i = i + 1;
    }
    proof {
        assert(all.take(all.len() as int) =~= all);
    }
    if out.len() == 0 {
        return Err(invalid_error(chars_of("'export_targets' must contain at least one path")));
    }
    Ok(out)
}

/// The plan's model source: a required path under a model root, ending in
/// `.py`.
pub open spec fn cadquery_target(o: Option<Seq<char>>, key: Seq<char>) -> Result<Seq<char>, Err2> {
    match required_text(o, key) {
        Err(e) => Err(e),
        Ok(t) => match allowed_path(t, model_roots(), denied_relation_roots()) {
            Err(e) => Err(e),
            Ok(p) => if ends_with(p, ".py"@) {
                Ok(p)
            } else {
                Err(invalid("target_path must be a CadQuery .py model source"@))
            },
        },
    }
}

pub fn cadquery_target_arg(value: &Option<String>, key: &str) -> (r: Result<String, ToolPolicyError>)
    ensures
        text_result(r) == cadquery_target(opt_text(*value), key@),
{
    let t = match non_empty_string_arg(value, key) {
        Ok(t) => t,
        Err(e) => return Err(e),
    };
    let p = match normalize_allowed_path(t.as_str(), &model_roots_exec()) {
        Ok(p) => p,
        Err(e) => return Err(e),
    };
    if ends_with_lit(&chars_of(p.as_str()), ".py") {
        Ok(p)
    } else {
        Err(invalid_error(chars_of("target_path must be a CadQuery .py model source")))
    }
}

/// The plan's object kind: `part`, `component` or `assembly`.
pub open spec fn target_type_of(o: Option<Seq<char>>) -> Result<CadQueryObjectKind, Err2> {
    match required_text(o, "target_type"@) {
        Err(e) => Err(e),
        Ok(t) => if t == "assembly"@ {
            Ok(CadQueryObjectKind::Assembly)
        } else if t == "component"@ {
            Ok(CadQueryObjectKind::Component)
        } else if t == "part"@ {
            Ok(CadQueryObjectKind::Part)
        } else {
            Err(invalid("target_type must be part, component, or assembly"@))
        },
    }
}

pub fn target_type_arg(value: &Option<String>) -> (r: Result<CadQueryObjectKind, ToolPolicyError>)
    ensures
        match (r, target_type_of(opt_text(*value))) {
            (Ok(a), Ok(b)) => a == b,
            (Err(a), Err(b)) => a@ == b,
            _ => false,
        },
{
    let t = match non_empty_string_arg(value, "target_type") {
        Ok(t) => t,
        Err(e) => return Err(e),
    };
    let c = chars_of(t.as_str());
    if eq_lit(&c, "assembly") {
        Ok(CadQueryObjectKind::Assembly)
    } else if eq_lit(&c, "component") {
        Ok(CadQueryObjectKind::Component)
    } else if eq_lit(&c, "part") {
        Ok(CadQueryObjectKind::Part)
    } else {
        Err(invalid_error(chars_of("target_type must be part, component, or assembly")))
    }
}

// ---------------------------------------------------------------------------
// Cross checks

/// The kind a model path's root implies.
pub open spec fn kind_of_root(first: Seq<char>) -> CadQueryObjectKind {
    if first == "assemblies"@ {
        CadQueryObjectKind::Assembly
    } else if first == "components"@ {
        CadQueryObjectKind::Component
    } else {
        CadQueryObjectKind::Part
    }
}

pub open spec fn type_matches_path(target_path: Seq<char>, kind: CadQueryObjectKind) -> Result<(), Err2> {
    if kind == kind_of_root(first_segment(target_path)) {
        Ok(())
    } else {
        Err(invalid("target_type does not match target_path"@))
    }
}

pub fn validate_target_type_matches_path(target_path: &str, kind: CadQueryObjectKind) -> (r: Result<
    (),
    ToolPolicyError,
>)
    ensures
        err_view(r) == type_matches_path(target_path@, kind),
{
    let first = first_segment_exec(&chars_of(target_path));
    let expected = if eq_lit(&first, "assemblies") {
        CadQueryObjectKind::Assembly
    } else if eq_lit(&first, "components") {
        CadQueryObjectKind::Component
    } else {
        CadQueryObjectKind::Part
    };
    if kind == expected {
        Ok(())
    } else {
        Err(invalid_error(chars_of("target_type does not match target_path")))
    }
}

pub open spec fn target_in_scope(target_path: Seq<char>, affected: Seq<Seq<char>>, new_files: Seq<Seq<char>>) -> Result<
    (),
    Err2,
> {
    if affected.contains(target_path) || new_files.contains(target_path) {
        Ok(())
    } else {
        Err(invalid("target_path must be included in affected_files or new_files"@))
    }
}

fn contains_text(v: &Vec<String>, x: &[char]) -> (r: bool)
    ensures
        r == string_views(v@).contains(x@),
{
    let mut i: usize = 0;
    while i < v.len()
        invariant
            i <= v.len(),
            forall|j: int| 0 <= j < i ==> string_views(v@)[j] != x@,
        decreases v.len() - i,
    {
        if seq_eq(&chars_of(v[i].as_str()), x) {
            proof {
                assert(string_views(v@)[i as int] == x@);
            }
            return true;
        }
        i = i + 1;
    }
    proof {
        if string_views(v@).contains(x@) {
            let k = choose|k: int| 0 <= k < string_views(v@).len() && string_views(v@)[k] == x@;
            assert(string_views(v@)[k] != x@);
        }
    }
    false
}

pub fn validate_plan_execution_scope(target_path: &str, affected_files: &Vec<String>, new_files: &Vec<String>) -> (r:
    Result<(), ToolPolicyError>)
    ensures
        err_view(r) == target_in_scope(target_path@, string_views(affected_files@), string_views(new_files@)),
{
    let t = chars_of(target_path);
    if contains_text(affected_files, &t) || contains_text(new_files, &t) {
        Ok(())
    } else {
        Err(invalid_error(chars_of("target_path must be included in affected_files or new_files")))
    }
}

/// The stem the runner names outputs after: the target's file stem, else
/// `cadquery`.
pub open spec fn runner_stem(target_path: Seq<char>) -> Seq<char> {
    match file_stem(target_path) {
        Some(s) => if s.len() > 0 {
            s
        } else {
            "cadquery"@
        },
        None => "cadquery"@,
    }
}

/// Whether an export target is `outputs/<stem>.<ext>` for a supported
/// extension.
pub open spec fn runner_export_match(target_path: Seq<char>, export: Seq<char>) -> bool {
    let stem = runner_stem(target_path);
    export == "outputs/"@ + stem + ".step"@ || export == "outputs/"@ + stem + ".stl"@ || export == "outputs/"@
        + stem + ".3mf"@
}

fn runner_name(stem: &[char], ext: &str) -> (r: Vec<char>)
    ensures
        r@ == "outputs/"@ + stem@ + ext@,
{
    let mut o = chars_of("outputs/");
    append_chars(&mut o, stem);
    append_lit(&mut o, ext);
    o
}

pub fn matches_runner_export_target(target_path: &str, export: &str) -> (r: bool)
    ensures
        r == runner_export_match(target_path@, export@),
{
    let stem = match file_stem_exec(&chars_of(target_path)) {
        Some(s) => if s.len() > 0 {
            s
        } else {
            chars_of("cadquery")
        },
        None => chars_of("cadquery"),
    };
    let e = chars_of(export);
    seq_eq(&e, &runner_name(&stem, ".step")) || seq_eq(&e, &runner_name(&stem, ".stl")) || seq_eq(
        &e,
        &runner_name(&stem, ".3mf"),
    )
}

pub open spec fn exports_match(target_path: Seq<char>, exports: Seq<Seq<char>>) -> Result<(), Err2> {
    if forall|i: int| 0 <= i < exports.len() ==> runner_export_match(target_path, #[trigger] exports[i]) {
        Ok(())
    } else {
        Err(invalid("export_targets must match runner output names for target_path"@))
    }
}

pub fn validate_plan_export_targets(target_path: &str, export_targets: &Vec<String>) -> (r: Result<
    (),
    ToolPolicyError,
>)
    ensures
        err_view(r) == exports_match(target_path@, string_views(export_targets@)),
{
    let mut i: usize = 0;
    while i < export_targets.len()
        invariant
            i <= export_targets.len(),
            forall|j: int| 0 <= j < i ==> runner_export_match(target_path@, #[trigger] string_views(export_targets@)[j]),
        decreases export_targets.len() - i,
    {
        if !matches_runner_export_target(target_path, export_targets[i].as_str()) {
            proof {
                assert(!runner_export_match(target_path@, string_views(export_targets@)[i as int]));
            }
            return Err(invalid_error(chars_of("export_targets must match runner output names for target_path")));
        }
        i = i + 1;
    }
    Ok(())
}

// ---------------------------------------------------------------------------
// save_cad_plan

/// The arguments of `save_cad_plan` as parsed from its JSON object: each
/// string field `Some` where it is a string.
#[derive(Debug, Clone, PartialEq, Eq)]
pub struct RawPlanArgs {
    pub title: Option<String>,
    pub request: Option<String>,
    pub target_ref: Option<String>,
    pub target_path: Option<String>,
    pub target_type: Option<String>,
    pub affected_files: StringArrayArg,
    pub new_files: StringArrayArg,
    pub export_targets: StringArrayArg,
    pub strategy: Option<String>,
    pub risks: StringArrayArg,
    pub acceptance: StringArrayArg,
    pub execution_scope: Option<String>,
}

/// The keys `save_cad_plan` reads.
pub open spec fn plan_arg_keys() -> Seq<Seq<char>> {
    seq![
        "title"@,
        "request"@,
        "target_ref"@,
        "target_path"@,
        "target_type"@,
        "affected_files"@,
        "new_files"@,
        "export_targets"@,
        "strategy"@,
        "risks"@,
        "acceptance"@,
        "execution_scope"@,
    ]
}

/// The plan arguments agree with the fields read from the JSON text.
pub open spec fn plan_args_match(a: RawPlanArgs, f: Seq<FieldView>) -> bool {
    &&& opt_string(a.title) == field_text(f[0])
    &&& opt_string(a.request) == field_text(f[1])
    &&& opt_string(a.target_ref) == field_text(f[2])
    &&& opt_string(a.target_path) == field_text(f[3])
    &&& opt_string(a.target_type) == field_text(f[4])
    &&& string_array_view(a.affected_files) == field_list(f[5])
    &&& string_array_view(a.new_files) == field_list(f[6])
    &&& string_array_view(a.export_targets) == field_list(f[7])
    &&& opt_string(a.strategy) == field_text(f[8])
    &&& string_array_view(a.risks) == field_list(f[9])
    &&& string_array_view(a.acceptance) == field_list(f[10])
    &&& opt_string(a.execution_scope) == field_text(f[11])
}

/// Reads the JSON arguments of `save_cad_plan`; text that is no JSON gives
/// the parser's message.
pub fn parse_plan_args(arguments: &str) -> (r: Result<RawPlanArgs, String>)
    ensures
        match (r, json_fields(arguments@, plan_arg_keys())) {
            (Ok(a), Ok(f)) => plan_args_match(a, f),
            (Err(e), Err(m)) => e@ == m,
            _ => false,
        },
{
    let mut keys: Vec<&str> = Vec::new();
    keys.push("title");
    keys.push("request");
    keys.push("target_ref");
    keys.push("target_path");
    keys.push("target_type");
    keys.push("affected_files");
    keys.push("new_files");
    keys.push("export_targets");
    keys.push("strategy");
    keys.push("risks");
    keys.push("acceptance");
    keys.push("execution_scope");
    proof {
        assert(keys_view(keys@) =~= plan_arg_keys());
    }
    let mut fields = match read_fields(arguments, &keys) {
        Err(e) => return Err(e),
        Ok(v) => v,
    };
    let ghost f = fields_view(fields@);
    let ghost all = fields@;
    let title = take_text(next_field(&mut fields));
    let request = take_text(next_field(&mut fields));
    let target_ref = take_text(next_field(&mut fields));
    let target_path = take_text(next_field(&mut fields));
    let target_type = take_text(next_field(&mut fields));
    let affected_files = take_string_array(next_field(&mut fields));
    let new_files = take_string_array(next_field(&mut fields));
    let export_targets = take_string_array(next_field(&mut fields));
    let strategy = take_text(next_field(&mut fields));
    let risks = take_string_array(next_field(&mut fields));
    let acceptance = take_string_array(next_field(&mut fields));
    let execution_scope = take_text(next_field(&mut fields));
    proof {
        assert forall|k: int| 0 <= k < 12 implies f[k] == field_view(all[k]) by {}
    }
    Ok(
        RawPlanArgs {
            title,
            request,
            target_ref,
            target_path,
            target_type,
            affected_files,
            new_files,
            export_targets,
            strategy,
            risks,
            acceptance,
            execution_scope,
        },
    )
}

/// What the checks make of the arguments, in the order they run: the target
/// path, the affected files, the title, request and target ref, the target
/// type, the new files, the export targets, the strategy, the risks and
/// acceptance lists, the execution scope; then the target type against the
/// path, the target inside the scope, and the export targets against the
/// runner's output names.
pub open spec fn plan_args(
    a: RawPlanArgs,
) -> Result<
    (
        Seq<char>,
        Seq<Seq<char>>,
        Seq<char>,
        Seq<char>,
        Seq<char>,
        CadQueryObjectKind,
        Seq<Seq<char>>,
        Seq<Seq<char>>,
        Seq<char>,
        Seq<Seq<char>>,
        Seq<Seq<char>>,
        Seq<char>,
    ),
    Err2,
> {
    match cadquery_target(opt_text(a.target_path), "target_path"@) {
        Err(e) => Err(e),
        Ok(target_path) => match scope_paths(a.affected_files, "affected_files"@, true) {
            Err(e) => Err(e),
            Ok(affected) => match required_text(opt_text(a.title), "title"@) {
                Err(e) => Err(e),
                Ok(title) => match required_text(opt_text(a.request), "request"@) {
                    Err(e) => Err(e),
                    Ok(request) => match required_text(opt_text(a.target_ref), "target_ref"@) {
                        Err(e) => Err(e),
                        Ok(target_ref) => match target_type_of(opt_text(a.target_type)) {
                            Err(e) => Err(e),
                            Ok(kind) => match scope_paths(a.new_files, "new_files"@, false) {
                                Err(e) => Err(e),
                                Ok(new_files) => match plan_export_targets(a.export_targets) {
                                    Err(e) => Err(e),
                                    Ok(exports) => match required_text(opt_text(a.strategy), "strategy"@) {
                                        Err(e) => Err(e),
                                        Ok(strategy) => match string_items(a.risks, "risks"@) {
                                            Err(e) => Err(e),
                                            Ok(risks) => match string_items(a.acceptance, "acceptance"@) {
                                                Err(e) => Err(e),
                                                Ok(acceptance) => match required_text(
                                                    opt_text(a.execution_scope),
                                                    "execution_scope"@,
                                                ) {
                                                    Err(e) => Err(e),
                                                    Ok(scope) => match type_matches_path(target_path, kind) {
                                                        Err(e) => Err(e),
                                                        Ok(_) => match target_in_scope(target_path, affected, new_files) {
                                                            Err(e) => Err(e),
                                                            Ok(_) => match exports_match(target_path, exports) {
                                                                Err(e) => Err(e),
                                                                Ok(_) => Ok(
                                                                    (
                                                                        target_path,
                                                                        affected,
                                                                        title,
                                                                        request,
                                                                        target_ref,
                                                                        kind,
                                                                        new_files,
                                                                        exports,
                                                                        strategy,
                                                                        risks,
                                                                        acceptance,
                                                                        scope,
                                                                    ),
                                                                ),
                                                            },
                                                        },
                                                    },
                                                },
                                            },
                                        },
                                    },
                                },
                            },
                        },
                    },
                },
            },
        },
    }
}

pub open spec fn input_view(i: SaveCadPlanPackageInput) -> (
    Seq<char>,
    Seq<Seq<char>>,
    Seq<char>,
    Seq<char>,
    Seq<char>,
    CadQueryObjectKind,
    Seq<Seq<char>>,
    Seq<Seq<char>>,
    Seq<char>,
    Seq<Seq<char>>,
    Seq<Seq<char>>,
    Seq<char>,
) {
    (
        i.target_path@,
        string_views(i.affected_files@),
        i.title@,
        i.request@,
        i.target_ref@,
        i.target_type,
        string_views(i.new_files@),
        string_views(i.export_targets@),
        i.strategy@,
        string_views(i.risks@),
        string_views(i.acceptance@),
        i.execution_scope@,
    )
}

/// Checks the arguments of `save_cad_plan` and makes the package input of
/// them; the chat session is left for the caller to fill in.
#[verifier::rlimit(60)]
pub fn save_plan_args(a: &RawPlanArgs) -> (r: Result<SaveCadPlanPackageInput, ToolPolicyError>)
    ensures
        match (r, plan_args(*a)) {
            (Ok(i), Ok(v)) => input_view(i) == v && i.source_chat_session is None,
            (Err(e), Err(v)) => e@ == v,
            _ => false,
        },
{
    let target_path = match cadquery_target_arg(&a.target_path, "target_path") {
        Ok(v) => v,
        Err(e) => return Err(e),
    };
    let affected_files = match scope_paths_exec(&a.affected_files, "affected_files", true) {
        Ok(v) => v,
        Err(e) => return Err(e),
    };
    let title = match non_empty_string_arg(&a.title, "title") {
        Ok(v) => v,
        Err(e) => return Err(e),
    };
    let request = match non_empty_string_arg(&a.request, "request") {
        Ok(v) => v,
        Err(e) => return Err(e),
    };
    let target_ref = match non_empty_string_arg(&a.target_ref, "target_ref") {
        Ok(v) => v,
        Err(e) => return Err(e),
    };
    let target_type = match target_type_arg(&a.target_type) {
        Ok(v) => v,
        Err(e) => return Err(e),
    };
    let new_files = match scope_paths_exec(&a.new_files, "new_files", false) {
        Ok(v) => v,
        Err(e) => return Err(e),
    };
    let exports = match export_targets(&a.export_targets) {
        Ok(v) => v,
        Err(e) => return Err(e),
    };
    let strategy = match non_empty_string_arg(&a.strategy, "strategy") {
        Ok(v) => v,
        Err(e) => return Err(e),
    };
    let risks = match optional_string_array(&a.risks, "risks") {
        Ok(v) => v,
        Err(e) => return Err(e),
    };
    let acceptance = match optional_string_array(&a.acceptance, "acceptance") {
        Ok(v) => v,
        Err(e) => return Err(e),
    };
    let execution_scope = match non_empty_string_arg(&a.execution_scope, "execution_scope") {
        Ok(v) => v,
        Err(e) => return Err(e),
    };
    match validate_target_type_matches_path(target_path.as_str(), target_type) {
        Ok(_) => {},
        Err(e) => return Err(e),
    }
    match validate_plan_execution_scope(target_path.as_str(), &affected_files, &new_files) {
        Ok(_) => {},
        Err(e) => return Err(e),
    }
    match validate_plan_export_targets(target_path.as_str(), &exports) {
        Ok(_) => {},
        Err(e) => return Err(e),
    }
    Ok(
        SaveCadPlanPackageInput {
            title,
            request,
            target_ref,
            target_path,
            target_type,
            affected_files,
            new_files,
            export_targets: exports,
            strategy,
            risks,
            acceptance,
            execution_scope,
            source_chat_session: None,
        },
    )
}

// ---------------------------------------------------------------------------
// update_chat_summary

/// The arguments of `update_chat_summary` as parsed.
#[derive(Debug, Clone, PartialEq, Eq)]
pub struct RawChatSummaryArgs {
    pub summary: Option<String>,
    pub goal: Option<String>,
    pub related_files: StringArrayArg,
    pub open_questions: StringArrayArg,
}

/// The keys `update_chat_summary` reads.
pub open spec fn summary_arg_keys() -> Seq<Seq<char>> {
    seq!["summary"@, "goal"@, "related_files"@, "open_questions"@]
}

/// Reads the JSON arguments of `update_chat_summary`; text that is no JSON
/// gives the parser's message.
pub fn parse_chat_summary_args(arguments: &str) -> (r: Result<RawChatSummaryArgs, String>)
    ensures
        match (r, json_fields(arguments@, summary_arg_keys())) {
            (Ok(a), Ok(f)) => opt_string(a.summary) == field_text(f[0]) && opt_string(a.goal) == field_text(f[1])
                && string_array_view(a.related_files) == field_list(f[2]) && string_array_view(a.open_questions)
                == field_list(f[3]),
            (Err(e), Err(m)) => e@ == m,
            _ => false,
        },
{
    let mut keys: Vec<&str> = Vec::new();
    keys.push("summary");
    keys.push("goal");
    keys.push("related_files");
    keys.push("open_questions");
    proof {
        assert(keys_view(keys@) =~= summary_arg_keys());
    }
    let mut fields = match read_fields(arguments, &keys) {
        Err(e) => return Err(e),
        Ok(v) => v,
    };
    let ghost f = fields_view(fields@);
    let ghost all = fields@;
    let summary = take_text(next_field(&mut fields));
    let goal = take_text(next_field(&mut fields));
    let related_files = take_string_array(next_field(&mut fields));
    let open_questions = take_string_array(next_field(&mut fields));
    proof {
        assert forall|k: int| 0 <= k < 4 implies f[k] == field_view(all[k]) by {}
    }
    Ok(RawChatSummaryArgs { summary, goal, related_files, open_questions })
}

/// The checked arguments of `update_chat_summary`; related files are
/// normalized workspace paths.
#[derive(Debug, Clone, PartialEq, Eq)]
pub struct ChatSummaryArgs {
    pub summary: String,
    pub goal: String,
    pub related_files: Vec<String>,
    pub open_questions: Vec<String>,
}

/// The related files, then the summary, the goal and the open questions.
pub open spec fn chat_summary_of(a: RawChatSummaryArgs) -> Result<
    (Seq<char>, Seq<char>, Seq<Seq<char>>, Seq<Seq<char>>),
    Err2,
> {
    match string_items(a.related_files, "related_files"@) {
        Err(e) => Err(e),
        Ok(items) => match all_paths(items, chat_related_roots(), chat_denied_roots()) {
            Err(e) => Err(e),
            Ok(related) => match required_text(opt_text(a.summary), "summary"@) {
                Err(e) => Err(e),
                Ok(summary) => match required_text(opt_text(a.goal), "goal"@) {
                    Err(e) => Err(e),
                    Ok(goal) => match string_items(a.open_questions, "open_questions"@) {
                        Err(e) => Err(e),
                        Ok(questions) => Ok((summary, goal, related, questions)),
                    },
                },
            },
        },
    }
}

pub fn chat_summary_args(a: &RawChatSummaryArgs) -> (r: Result<ChatSummaryArgs, ToolPolicyError>)
    ensures
        match (r, chat_summary_of(*a)) {
            (Ok(c), Ok(v)) => (c.summary@, c.goal@, string_views(c.related_files@), string_views(c.open_questions@))
                == v,
            (Err(e), Err(v)) => e@ == v,
            _ => false,
        },
{
    let items = match optional_string_array(&a.related_files, "related_files") {
        Ok(v) => v,
        Err(e) => return Err(e),
    };
    let related_files = match all_paths_exec(&items, &chat_related_roots_exec(), &chat_denied_roots_exec()) {
        Ok(v) => v,
        Err(e) => return Err(e),
    };
    let summary = match non_empty_string_arg(&a.summary, "summary") {
        Ok(v) => v,
        Err(e) => return Err(e),
    };
    let goal = match non_empty_string_arg(&a.goal, "goal") {
        Ok(v) => v,
        Err(e) => return Err(e),
    };
    let open_questions = match optional_string_array(&a.open_questions, "open_questions") {
        Ok(v) => v,
        Err(e) => return Err(e),
    };
    Ok(ChatSummaryArgs { summary, goal, related_files, open_questions })
}

/// `update_chat_summary` needs an active chat session.
pub fn require_chat_session(session_id: &Option<String>) -> (r: Result<(), ToolPolicyError>)
    ensures
        err_view(r) == if session_id is Some {
            Ok::<(), Err2>(())
        } else {
            Err(invalid("update_chat_summary requires an active Chat session"@))
        },
{
    match session_id {
        Some(_) => Ok(()),
        None => Err(invalid_error(chars_of("update_chat_summary requires an active Chat session"))),
    }
}

} // verus!
