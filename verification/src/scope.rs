//! The execution scope of an agent run: the files it may touch.
use vstd::prelude::*;
use crate::model::CadQueryObjectKind;
use crate::plan_package::{ParsedPlanPackage, string_views};
use crate::text::{chars_of, seq_eq, string_of};
use crate::workspace_path::{normalize_path, normalize_path_exec};

verus! {

/// What an agent run may change: affected files, new files and export
/// targets (all normalized workspace paths), and the plan it carries out.
#[derive(Debug, Clone, PartialEq, Eq)]
pub struct AgentExecutionScope {
    pub target_path: Option<String>,
    pub target_type: Option<CadQueryObjectKind>,
    pub affected_files: Vec<String>,
    pub new_files: Vec<String>,
    pub export_targets: Vec<String>,
    pub plan_ref: Option<String>,
    pub plan_result_path: Option<String>,
}

/// The paths that normalize, normalized, in order; the others dropped.
pub open spec fn normalize_scope_paths(paths: Seq<Seq<char>>) -> Seq<Seq<char>>
    decreases paths.len(),
{
    if paths.len() == 0 {
        Seq::empty()
    } else {
        let rest = normalize_scope_paths(paths.drop_last());
        match normalize_path(paths.last()) {
            Ok(p) => rest.push(p),
            Err(_) => rest,
        }
    }
}

/// The paths that normalize, normalized, in order.
pub fn normalize_scope_paths_exec(paths: &Vec<String>) -> (r: Vec<String>)
    ensures
        string_views(r@) == normalize_scope_paths(string_views(paths@)),
{
    let mut out: Vec<String> = Vec::new();
    let mut i: usize = 0;
    proof {
        assert(string_views(paths@).take(0) =~= Seq::<Seq<char>>::empty());
        assert(string_views(out@) =~= Seq::<Seq<char>>::empty());
    }
    while i < paths.len()
        invariant
            i <= paths.len(),
            string_views(out@) == normalize_scope_paths(string_views(paths@).take(i as int)),
        decreases paths.len() - i,
    {
        proof {
            let t = string_views(paths@).take(i + 1);
            assert(t.drop_last() =~= string_views(paths@).take(i as int));
            assert(t.last() == paths@[i as int]@);
        }
        let p = chars_of(paths[i].as_str());
        match normalize_path_exec(&p) {
            Ok(n) => {
                let s = string_of(&n);
                let ghost before = string_views(out@);
                out.push(s);
                proof {
                    assert(string_views(out@) =~= before.push(s@));
                }
            },
            Err(_) => {},
        }
        i = i + 1;
    }
    proof {
        assert(string_views(paths@).take(paths@.len() as int) =~= string_views(paths@));
    }
    out
}

pub open spec fn opt_string(o: Option<String>) -> Option<Seq<char>> {
    match o {
        Some(s) => Some(s@),
        None => None,
    }
}

/// Whether a list holds a text.
pub fn strings_contain(v: &Vec<String>, x: &[char]) -> (r: bool)
    ensures
        r == string_views(v@).contains(x@),
{
    let mut i: usize = 0;
    while i < v.len()
        invariant
            i <= v.len(),
            forall|j: int| 0 <= j < i ==> string_views(v@)[j] != x@,
        decreases v.len() - i,
    {
        let c = chars_of(v[i].as_str());
        if seq_eq(&c, x) {
            proof {
                assert(string_views(v@)[i as int] == x@);
            }
            return true;
        }
        i = i + 1;
    }
    false
}

fn clone_string(s: &String) -> (r: String)
    ensures
        r@ == s@,
{
    s.as_str().to_owned()
}

impl AgentExecutionScope {
    /// A scope of files only; each list keeps the paths that normalize.
    pub fn new(affected_files: Vec<String>, new_files: Vec<String>, export_targets: Vec<String>) -> (r: Self)
        ensures
            r.target_path is None,
            r.target_type is None,
            r.plan_ref is None,
            r.plan_result_path is None,
            string_views(r.affected_files@) == normalize_scope_paths(string_views(affected_files@)),
            string_views(r.new_files@) == normalize_scope_paths(string_views(new_files@)),
            string_views(r.export_targets@) == normalize_scope_paths(string_views(export_targets@)),
    {
        AgentExecutionScope {
            target_path: None,
            target_type: None,
            affected_files: normalize_scope_paths_exec(&affected_files),
            new_files: normalize_scope_paths_exec(&new_files),
            export_targets: normalize_scope_paths_exec(&export_targets),
            plan_ref: None,
            plan_result_path: None,
        }
    }

    /// The scope that carries out a plan.
    pub fn for_plan(
        plan_ref: String,
        plan_result_path: String,
        target_path: String,
        target_type: CadQueryObjectKind,
        affected_files: Vec<String>,
        new_files: Vec<String>,
        export_targets: Vec<String>,
    ) -> (r: Self)
        ensures
            opt_string(r.target_path) == Some(target_path@),
            r.target_type == Some(target_type),
            opt_string(r.plan_ref) == Some(plan_ref@),
            opt_string(r.plan_result_path) == Some(plan_result_path@),
            string_views(r.affected_files@) == normalize_scope_paths(string_views(affected_files@)),
            string_views(r.new_files@) == normalize_scope_paths(string_views(new_files@)),
            string_views(r.export_targets@) == normalize_scope_paths(string_views(export_targets@)),
    {
        AgentExecutionScope {
            target_path: Some(target_path),
            target_type: Some(target_type),
            affected_files: normalize_scope_paths_exec(&affected_files),
            new_files: normalize_scope_paths_exec(&new_files),
            export_targets: normalize_scope_paths_exec(&export_targets),
            plan_ref: Some(plan_ref),
            plan_result_path: Some(plan_result_path),
        }
    }

    /// The scope that carries out a parsed plan package.
    pub fn from_plan_package(plan: &ParsedPlanPackage) -> (r: Self)
        ensures
            opt_string(r.target_path) == Some(plan.target_path@),
            r.target_type == Some(plan.target_type),
            opt_string(r.plan_ref) == Some(plan.plan_ref@),
            opt_string(r.plan_result_path) == Some(plan.result_path@),
            string_views(r.affected_files@) == normalize_scope_paths(string_views(plan.affected_files@)),
            string_views(r.new_files@) == normalize_scope_paths(string_views(plan.new_files@)),
            string_views(r.export_targets@) == normalize_scope_paths(string_views(plan.export_targets@)),
    {
        AgentExecutionScope {
            target_path: Some(clone_string(&plan.target_path)),
            target_type: Some(plan.target_type),
            affected_files: normalize_scope_paths_exec(&plan.affected_files),
            new_files: normalize_scope_paths_exec(&plan.new_files),
            export_targets: normalize_scope_paths_exec(&plan.export_targets),
            plan_ref: Some(clone_string(&plan.plan_ref)),
            plan_result_path: Some(clone_string(&plan.result_path)),
        }
    }

    pub fn contains_affected_file(&self, path: &[char]) -> (r: bool)
        ensures
            r == string_views(self.affected_files@).contains(path@),
    {
        strings_contain(&self.affected_files, path)
    }

    pub fn contains_new_file(&self, path: &[char]) -> (r: bool)
        ensures
            r == string_views(self.new_files@).contains(path@),
    {
        strings_contain(&self.new_files, path)
    }

    pub fn contains_export_target(&self, path: &[char]) -> (r: bool)
        ensures
            r == string_views(self.export_targets@).contains(path@),
    {
        strings_contain(&self.export_targets, path)
    }
}

/// A scope by its views.
pub struct ScopeView {
    pub target_path: Option<Seq<char>>,
    pub target_type: Option<CadQueryObjectKind>,
    pub affected_files: Seq<Seq<char>>,
    pub new_files: Seq<Seq<char>>,
    pub export_targets: Seq<Seq<char>>,
}

pub open spec fn scope_view(s: AgentExecutionScope) -> ScopeView {
    ScopeView {
        target_path: opt_string(s.target_path),
        target_type: s.target_type,
        affected_files: string_views(s.affected_files@),
        new_files: string_views(s.new_files@),
        export_targets: string_views(s.export_targets@),
    }
}

pub open spec fn opt_scope_view(s: Option<&AgentExecutionScope>) -> Option<ScopeView> {
    match s {
        Some(x) => Some(scope_view(*x)),
        None => None,
    }
}

} // verus!
