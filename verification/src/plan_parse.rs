//! Reading a plan package back: its reference, and what its `plan.md` says.
use vstd::prelude::*;
use crate::front_matter::{
    PlanMetadataView, metadata_view, normalize_field_path, normalize_field_path_exec,
    parse_plan_metadata, parse_plan_metadata_exec, res_text,
};
use crate::model::CadQueryObjectKind;
use crate::plan_package::{
    ParsedPlanPackage, PlanPackageError, PlanPackagePaths, PlanTimestamp, SaveCadPlanPackageInput,
    SavedPlanPackage, extract_plan_title, extract_plan_title_exec, looks_like_plan_id,
    looks_like_plan_id_exec, package_paths, package_paths_spec, paths_view, plan_id_from_ref,
    plan_id_from_ref_exec, render_plan_markdown, render_plan_markdown_exec, string_views,
};
use crate::sorted::{lemma_text_lt_transitive, text_lt, text_lt_exec};
use crate::text::{append_chars, append_lit, chars_of, string_of, views};

verus! {

/// The plan id named by a `plan_ref` argument: the reference is normalized
/// as a workspace path, then must be `plans/<plan id>`.
pub open spec fn plan_id_for_ref(plan_ref: Seq<char>) -> Result<Seq<char>, (Seq<char>, Seq<char>)> {
    match normalize_field_path(plan_ref, "plan_ref"@) {
        Err(e) => Err(e),
        Ok(n) => plan_id_from_ref(n),
    }
}

/// The plan id named by a `plan_ref` argument.
pub fn plan_id_for_ref_exec(plan_ref: &str) -> (r: Result<String, PlanPackageError>)
    ensures
        match r {
            Ok(id) => plan_id_for_ref(plan_ref@) == Ok::<Seq<char>, (Seq<char>, Seq<char>)>(id@),
            Err(e) => plan_id_for_ref(plan_ref@) == Err::<Seq<char>, (Seq<char>, Seq<char>)>(e@),
        },
{
    let chars = chars_of(plan_ref);
    let n = normalize_field_path_exec(&chars, "plan_ref");
    let normalized = match n {
        Err(e) => return Err(e),
        Ok(v) => v,
    };
    match plan_id_from_ref_exec(&normalized) {
        Ok(id) => Ok(string_of(&id)),
        Err(e) => Err(e),
    }
}

/// A package as read back, by its views.
pub struct ParsedPlanView {
    pub plan_id: Seq<char>,
    pub plan_ref: Seq<char>,
    pub request_path: Seq<char>,
    pub plan_path: Seq<char>,
    pub result_path: Seq<char>,
    pub title: Seq<char>,
    pub status: Seq<char>,
    pub target_path: Seq<char>,
    pub target_type: CadQueryObjectKind,
    pub affected_files: Seq<Seq<char>>,
    pub new_files: Seq<Seq<char>>,
    pub export_targets: Seq<Seq<char>>,
}

pub open spec fn parsed_view(p: ParsedPlanPackage) -> ParsedPlanView {
    ParsedPlanView {
        plan_id: p.plan_id@,
        plan_ref: p.plan_ref@,
        request_path: p.request_path@,
        plan_path: p.plan_path@,
        result_path: p.result_path@,
        title: p.title@,
        status: p.status@,
        target_path: p.target_path@,
        target_type: p.target_type,
        affected_files: string_views(p.affected_files@),
        new_files: string_views(p.new_files@),
        export_targets: string_views(p.export_targets@),
    }
}

/// The package that a `plan.md` text describes for a plan id: its metadata,
/// its title (the plan id when `plan.md` has none) and its paths.
pub open spec fn parsed_plan_package(plan_id: Seq<char>, plan_text: Seq<char>) -> Result<ParsedPlanView, (Seq<char>, Seq<char>)> {
    match parse_plan_metadata(plan_text, plan_id) {
        Err(e) => Err(e),
        Ok(m) => {
            let paths = package_paths_spec(plan_id);
            let title = match extract_plan_title(plan_text) {
                Some(t) => t,
                None => plan_id,
            };
            Ok(ParsedPlanView {
                plan_id: plan_id,
                plan_ref: paths.1,
                request_path: paths.2,
                plan_path: paths.3,
                result_path: paths.4,
                title: title,
                status: m.status,
                target_path: m.target_path,
                target_type: m.target_type,
                affected_files: m.affected_files,
                new_files: m.new_files,
                export_targets: m.export_targets,
            })
        },
    }
}

fn strings_of(v: &Vec<Vec<char>>) -> (r: Vec<String>)
    ensures
        string_views(r@) == views(v@),
{
    let mut r: Vec<String> = Vec::new();
    let mut i: usize = 0;
    while i < v.len()
        invariant
            i <= v.len(),
            string_views(r@) == views(v@).take(i as int),
        decreases v.len() - i,
    {
        let s = string_of(v[i].as_slice());
        let ghost before = string_views(r@);
        r.push(s);
        proof {
            assert(string_views(r@) =~= before.push(s@));
            assert(views(v@).take(i + 1) =~= views(v@).take(i as int).push(v@[i as int]@));
        }
        i = i + 1;
    }
    proof {
        assert(views(v@).take(v@.len() as int) =~= views(v@));
    }
    r
}

/// The package that a `plan.md` text describes for a plan id.
pub fn parsed_plan_package_exec(plan_id: &str, plan_text: &str) -> (r: Result<ParsedPlanPackage, PlanPackageError>)
    ensures
        match r {
            Ok(p) => parsed_plan_package(plan_id@, plan_text@) == Ok::<ParsedPlanView, (Seq<char>, Seq<char>)>(parsed_view(p)),
            Err(e) => parsed_plan_package(plan_id@, plan_text@) == Err::<ParsedPlanView, (Seq<char>, Seq<char>)>(e@),
        },
{
    let id = chars_of(plan_id);
    let text = chars_of(plan_text);
    let m = match parse_plan_metadata_exec(&text, &id) {
        Err(e) => return Err(e),
        Ok(m) => m,
    };
    let title = match extract_plan_title_exec(&text) {
        Some(t) => string_of(&t),
        None => plan_id.to_owned(),
    };
    let paths = package_paths(plan_id);
    let p = ParsedPlanPackage {
        plan_id: paths.plan_id,
        plan_ref: paths.plan_ref,
        request_path: paths.request_path,
        plan_path: paths.plan_path,
        result_path: paths.result_path,
        title,
        status: string_of(&m.status),
        target_path: string_of(&m.target_path),
        target_type: m.target_type,
        affected_files: strings_of(&m.affected_files),
        new_files: strings_of(&m.new_files),
        export_targets: strings_of(&m.export_targets),
    };
    Ok(p)
}

/// What saving a package reports: its paths, the `plan.md` text that its
/// hash is taken of, and the status `planned`.
pub fn saved_plan_package(input: &SaveCadPlanPackageInput, plan_id: &str, timestamp: &PlanTimestamp) -> (r: SavedPlanPackage)
    ensures
        paths_view(r.paths) == package_paths_spec(plan_id@),
        r.hash_source@ == render_plan_markdown(*input, plan_id@, timestamp.created_at@),
        r.plan_status@ == "planned"@,
{
    SavedPlanPackage {
        paths: package_paths(plan_id),
        hash_source: render_plan_markdown_exec(input, plan_id, timestamp.created_at.as_str()),
        plan_status: "planned".to_owned(),
    }
}


// ---------------------------------------------------------------------------
// The packages of the plans folder

/// The packages found in the `plans` folder, ordered by plan ref, and a
/// warning for each entry whose package could not be read.
pub struct PlanPackageCollection {
    pub packages: Vec<ParsedPlanPackage>,
    pub warnings: Vec<String>,
}

pub open spec fn package_views(v: Seq<ParsedPlanPackage>) -> Seq<ParsedPlanView> {
    v.map_values(|p: ParsedPlanPackage| parsed_view(p))
}

/// No package's plan ref comes before that of an earlier one.
pub open spec fn ordered_by_ref(v: Seq<ParsedPlanPackage>) -> bool {
    forall|i: int, j: int| 0 <= i < j < v.len() ==> !text_lt(#[trigger] v[j].plan_ref@, #[trigger] v[i].plan_ref@)
}

pub open spec fn read_view(r: Result<String, PlanPackageError>) -> Result<Seq<char>, (Seq<char>, Seq<char>)> {
    match r {
        Ok(t) => Ok(t@),
        Err(e) => Err(e@),
    }
}

/// What an entry of the folder adds: nothing for a name that is no plan id;
/// else the package that `plans/<name>` names, read from its `plan.md`, or
/// a warning `plans/<name>: <message>` when the reference is refused, the
/// package files could not be read, or the `plan.md` is refused.
pub open spec fn entry_outcome(file_name: Seq<char>, plan_text: Result<Seq<char>, (Seq<char>, Seq<char>)>) -> Option<
    Result<ParsedPlanView, Seq<char>>,
> {
    if !looks_like_plan_id(file_name) {
        None
    } else {
        let warn = |m: Seq<char>| "plans/"@ + file_name + ": "@ + m;
        match plan_id_for_ref("plans/"@ + file_name) {
            Err(e) => Some(Err(warn(e.0))),
            Ok(id) => match plan_text {
                Err(e) => Some(Err(warn(e.0))),
                Ok(t) => match parsed_plan_package(id, t) {
                    Ok(p) => Some(Ok(p)),
                    Err(e) => Some(Err(warn(e.0))),
                },
            },
        }
    }
}

impl PlanPackageCollection {
    /// No package and no warning yet.
    pub fn new() -> (r: Self)
        ensures
            r.packages@.len() == 0,
            r.warnings@.len() == 0,
    {
        PlanPackageCollection { packages: Vec::new(), warnings: Vec::new() }
    }

    /// Takes one entry of the `plans` folder, with the text of the `plan.md`
    /// of the package that it names, or the error of reading that package's
    /// files.
    pub fn add_entry(&mut self, file_name: &str, plan_text: Result<String, PlanPackageError>)
        requires
            ordered_by_ref(old(self).packages@),
        ensures
            ordered_by_ref(final(self).packages@),
            match entry_outcome(file_name@, read_view(plan_text)) {
                None => final(self).packages@ == old(self).packages@ && final(self).warnings@
                    == old(self).warnings@,
                Some(Ok(p)) => package_views(final(self).packages@).to_multiset() == package_views(
                    old(self).packages@,
                ).to_multiset().insert(p) && final(self).warnings@ == old(self).warnings@,
                Some(Err(w)) => final(self).packages@ == old(self).packages@ && string_views(
                    final(self).warnings@,
                ) == string_views(old(self).warnings@).push(w),
            },
    {
        if !looks_like_plan_id_exec(&chars_of(file_name)) {
            return;
        }
        let mut plan_ref = chars_of("plans/");
        append_chars(&mut plan_ref, &chars_of(file_name));
        let message = match plan_id_for_ref_exec(string_of(&plan_ref).as_str()) {
            Err(e) => e.message,
            Ok(id) => match plan_text {
                Err(e) => e.message,
                Ok(t) => match parsed_plan_package_exec(id.as_str(), t.as_str()) {
                    Ok(p) => {
                        self.insert_package(p);
                        return;
                    },
                    Err(e) => e.message,
                },
            },
        };
        let mut w = chars_of("plans/");
        append_chars(&mut w, &chars_of(file_name));
        append_lit(&mut w, ": ");
        append_chars(&mut w, &chars_of(message.as_str()));
        let ghost before = string_views(self.warnings@);
        self.warnings.push(string_of(&w));
        proof {
            assert(string_views(self.warnings@) =~= before.push(w@));
        }
    }

    fn insert_package(&mut self, p: ParsedPlanPackage)
        requires
            ordered_by_ref(old(self).packages@),
        ensures
            ordered_by_ref(final(self).packages@),
            package_views(final(self).packages@).to_multiset() == package_views(old(self).packages@).to_multiset().insert(
                parsed_view(p),
            ),
            final(self).warnings@ == old(self).warnings@,
    {
        let ghost old_v = self.packages@;
        let key = chars_of(p.plan_ref.as_str());
        let mut j: usize = 0;
        while j < self.packages.len() && !text_lt_exec(&key, &chars_of(self.packages[j].plan_ref.as_str()))
            invariant
                j <= self.packages.len(),
                old_v == self.packages@,
                key@ == p.plan_ref@,
                forall|k: int| 0 <= k < j ==> !text_lt(key@, #[trigger] old_v[k].plan_ref@),
            decreases self.packages.len() - j,
        {
            j = j + 1;
        }
        let ghost x = p;
        self.packages.insert(j, p);
        proof {
            let nv = self.packages@;
            assert(nv =~= old_v.insert(j as int, x));
            assert forall|a: int, b: int| 0 <= a < b < nv.len() implies !text_lt(
                #[trigger] nv[b].plan_ref@,
                #[trigger] nv[a].plan_ref@,
            ) by {
                if b < j {
                    assert(nv[a] == old_v[a] && nv[b] == old_v[b]);
                } else if a < j && b == j {
                    assert(nv[a] == old_v[a]);
                } else if a < j && b > j {
                    assert(nv[a] == old_v[a] && nv[b] == old_v[b - 1]);
                } else if a == j {
                    assert(nv[b] == old_v[b - 1]);
                    assert(text_lt(key@, old_v[j as int].plan_ref@));
                    if text_lt(old_v[b - 1].plan_ref@, key@) {
                        lemma_text_lt_transitive(old_v[b - 1].plan_ref@, key@, old_v[j as int].plan_ref@);
                        if b - 1 > j {
                            assert(!text_lt(old_v[b - 1].plan_ref@, old_v[j as int].plan_ref@));
                        } else {
                            crate::sorted::lemma_text_lt_irreflexive(old_v[j as int].plan_ref@);
                        }
                    }
                } else {
                    assert(nv[a] == old_v[a - 1] && nv[b] == old_v[b - 1]);
                }
            }
            assert(package_views(nv) =~= package_views(old_v).insert(j as int, parsed_view(x)));
            vstd::seq_lib::to_multiset_insert(package_views(old_v), j as int, parsed_view(x));
        }
    }
}

} // verus!
