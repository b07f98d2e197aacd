//! The YAML front matter of `plan.md` and the metadata that it must hold.
//!
//! The front matter is the text between a leading `---` line and the next
//! `---` line. Each line is `key: value`, `key: []`, or `key:` followed by
//! `- item` lines. A later entry for a key replaces an earlier one.
use vstd::prelude::*;
use crate::model::{CadQueryObjectKind, kind_label, kind_root};
use crate::plan_package::{PlanPackageError, string_views};
use crate::text::{
    append_chars, append_lit, chars_of, ends_with, eq_lit, find, find_exec, lines, lines_exec,
    seq_eq, slice_vec, split_once, split_once_exec, starts_with, starts_with_lit, string_of,
    strip_prefix, strip_prefix_lit, trim, trim_exec, trim_start, trim_start_exec, views,
};
use crate::workspace_path::{
    PathRejection, file_stem, file_stem_exec, first_segment, first_segment_exec, is_model_root,
    is_model_root_exec, normalize_trimmed_path, normalize_trimmed_path_exec, rejection_or,
    supported_export_extension, supported_export_extension_exec,
};

verus! {

/// An error as (message, error type).
pub open spec fn perr(msg: Seq<char>, ty: Seq<char>) -> (Seq<char>, Seq<char>) {
    (msg, ty)
}

/// Front matter entries in the order they were read.
pub struct FrontMatter {
    pub scalars: Vec<(Vec<char>, Vec<char>)>,
    pub arrays: Vec<(Vec<char>, Vec<Vec<char>>)>,
}

pub open spec fn scalar_views(v: Seq<(Vec<char>, Vec<char>)>) -> Seq<(Seq<char>, Seq<char>)> {
    v.map_values(|e: (Vec<char>, Vec<char>)| (e.0@, e.1@))
}

pub open spec fn array_views(v: Seq<(Vec<char>, Vec<Vec<char>>)>) -> Seq<(Seq<char>, Seq<Seq<char>>)> {
    v.map_values(|e: (Vec<char>, Vec<Vec<char>>)| (e.0@, views(e.1@)))
}

/// The value of the latest entry for a key.
pub open spec fn lookup<V>(entries: Seq<(Seq<char>, V)>, key: Seq<char>) -> Option<V>
    decreases entries.len(),
{
    if entries.len() == 0 {
        None
    } else if entries.last().0 == key {
        Some(entries.last().1)
    } else {
        lookup(entries.drop_last(), key)
    }
}

/// The number of leading `- item` lines.
pub open spec fn yaml_run(ls: Seq<Seq<char>>) -> nat
    decreases ls.len(),
{
    if ls.len() > 0 && starts_with(trim_start(ls[0]), "- "@) {
        1 + yaml_run(ls.drop_first())
    } else {
        0
    }
}

/// The items of the leading `- item` lines, trimmed.
pub open spec fn yaml_items(ls: Seq<Seq<char>>) -> Seq<Seq<char>>
    decreases ls.len(),
{
    if ls.len() > 0 && starts_with(trim_start(ls[0]), "- "@) {
        seq![trim(trim_start(ls[0]).subrange(2, trim_start(ls[0]).len() as int))] + yaml_items(
            ls.drop_first(),
        )
    } else {
        Seq::<Seq<char>>::empty()
    }
}

pub proof fn lemma_yaml_run_le(ls: Seq<Seq<char>>)
    ensures
        yaml_run(ls) <= ls.len(),
        yaml_items(ls).len() == yaml_run(ls),
    decreases ls.len(),
{
    if ls.len() > 0 {
        lemma_yaml_run_le(ls.drop_first());
    }
}

/// Reads front matter lines into scalar and array entries.
pub open spec fn parse_block_lines(
    ls: Seq<Seq<char>>,
    sc: Seq<(Seq<char>, Seq<char>)>,
    ar: Seq<(Seq<char>, Seq<Seq<char>>)>,
) -> Result<(Seq<(Seq<char>, Seq<char>)>, Seq<(Seq<char>, Seq<Seq<char>>)>), (Seq<char>, Seq<char>)>
    decreases ls.len(),
{
    if ls.len() == 0 {
        Ok((sc, ar))
    } else {
        match split_once(ls[0], ':') {
            None => Err(perr("invalid front matter line"@, "invalid_arguments"@)),
            Some((k, v)) => {
                let key = trim(k);
                let value = trim(v);
                if value == "[]"@ {
                    parse_block_lines(ls.drop_first(), sc, ar.push((key, Seq::<Seq<char>>::empty())))
                } else if value.len() > 0 {
                    parse_block_lines(ls.drop_first(), sc.push((key, value)), ar)
                } else {
                    let rest = ls.drop_first();
                    proof {
                        lemma_yaml_run_le(rest);
                    }
                    parse_block_lines(
                        rest.subrange(yaml_run(rest) as int, rest.len() as int),
                        sc,
                        ar.push((key, yaml_items(rest))),
                    )
                }
            },
        }
    }
}

/// The front matter of `plan.md`.
pub open spec fn parse_front_matter(markdown: Seq<char>) -> Result<
    (Seq<(Seq<char>, Seq<char>)>, Seq<(Seq<char>, Seq<Seq<char>>)>),
    (Seq<char>, Seq<char>),
> {
    match strip_prefix(markdown, "---\n"@) {
        None => Err(perr("plan.md missing YAML front matter"@, "invalid_arguments"@)),
        Some(rest) => match find(rest, "\n---"@) {
            None => Err(perr("plan.md front matter is not closed"@, "invalid_arguments"@)),
            Some(end) => parse_block_lines(
                lines(rest.subrange(0, end)),
                Seq::<(Seq<char>, Seq<char>)>::empty(),
                Seq::<(Seq<char>, Seq<Seq<char>>)>::empty(),
            ),
        },
    }
}

pub open spec fn fm_view(fm: FrontMatter) -> (Seq<(Seq<char>, Seq<char>)>, Seq<(Seq<char>, Seq<Seq<char>>)>) {
    (scalar_views(fm.scalars@), array_views(fm.arrays@))
}

/// The leading `- item` lines of `ls` from `start`, as trimmed items.
fn collect_yaml_array(ls: &Vec<Vec<char>>, start: usize) -> (r: (Vec<Vec<char>>, usize))
    requires
        start <= ls.len(),
    ensures
        views(r.0@) == yaml_items(views(ls@).subrange(start as int, ls@.len() as int)),
        r.1 == yaml_run(views(ls@).subrange(start as int, ls@.len() as int)),
{
    let mut items: Vec<Vec<char>> = Vec::new();
    let mut i: usize = start;
    while i < ls.len()
        invariant
            start <= i <= ls.len(),
            yaml_items(views(ls@).subrange(start as int, ls@.len() as int)) == views(items@) + yaml_items(
                views(ls@).subrange(i as int, ls@.len() as int),
            ),
            yaml_run(views(ls@).subrange(start as int, ls@.len() as int)) == (i - start) + yaml_run(
                views(ls@).subrange(i as int, ls@.len() as int),
            ),
        decreases ls.len() - i,
    {
        let ghost rest = views(ls@).subrange(i as int, ls@.len() as int);
        proof {
            assert(rest[0] == ls@[i as int]@);
            assert(rest.drop_first() =~= views(ls@).subrange(i + 1, ls@.len() as int));
        }
        let t = trim_start_exec(ls[i].as_slice());
        proof {
            reveal_strlit("- ");
        }
        if !starts_with_lit(&t, "- ") {
            proof {
                assert(yaml_items(rest) == Seq::<Seq<char>>::empty());
            }
            return (items, i - start);
        }
        let body = slice_vec(&t, 2, t.len());
        let item = trim_exec(&body);
        let ghost before = views(items@);
        items.push(item);
        proof {
            assert(views(items@) =~= before.push(item@));
            assert(yaml_items(rest) == seq![item@] + yaml_items(rest.drop_first()));
            assert(before.push(item@) + yaml_items(rest.drop_first()) =~= before + (seq![item@] + yaml_items(rest.drop_first())));
        }
        i = i + 1;
    }
    proof {
        let rest = views(ls@).subrange(i as int, ls@.len() as int);
        assert(rest.len() == 0);
        assert(views(items@) + yaml_items(rest) =~= views(items@));
    }
    (items, i - start)
}

/// Reads the front matter block of `plan.md`.
fn parse_front_matter_block(block: &[char]) -> (r: Result<FrontMatter, PlanPackageError>)
    ensures
        match r {
            Ok(fm) => parse_block_lines(
                lines(block@),
                Seq::<(Seq<char>, Seq<char>)>::empty(),
                Seq::<(Seq<char>, Seq<Seq<char>>)>::empty(),
            ) == Ok::<_, (Seq<char>, Seq<char>)>(fm_view(fm)),
            Err(e) => parse_block_lines(
                lines(block@),
                Seq::<(Seq<char>, Seq<char>)>::empty(),
                Seq::<(Seq<char>, Seq<Seq<char>>)>::empty(),
            ) == Err::<(Seq<(Seq<char>, Seq<char>)>, Seq<(Seq<char>, Seq<Seq<char>>)>), _>(e@),
        },
{
    let ls = lines_exec(block);
    let mut fm = FrontMatter { scalars: Vec::new(), arrays: Vec::new() };
    let mut index: usize = 0;
    proof {
        assert(views(ls@).subrange(0, ls@.len() as int) =~= views(ls@));
        assert(scalar_views(fm.scalars@) =~= Seq::<(Seq<char>, Seq<char>)>::empty());
        assert(array_views(fm.arrays@) =~= Seq::<(Seq<char>, Seq<Seq<char>>)>::empty());
    }
    while index < ls.len()
        invariant
            index <= ls.len(),
            views(ls@) == lines(block@),
            parse_block_lines(
                lines(block@),
                Seq::<(Seq<char>, Seq<char>)>::empty(),
                Seq::<(Seq<char>, Seq<Seq<char>>)>::empty(),
            ) == parse_block_lines(
                views(ls@).subrange(index as int, ls@.len() as int),
                scalar_views(fm.scalars@),
                array_views(fm.arrays@),
            ),
        decreases ls.len() - index,
    {
        let ghost rest = views(ls@).subrange(index as int, ls@.len() as int);
        let ghost sc0 = scalar_views(fm.scalars@);
        let ghost ar0 = array_views(fm.arrays@);
        proof {
            assert(rest[0] == ls@[index as int]@);
            assert(rest.drop_first() =~= views(ls@).subrange(index + 1, ls@.len() as int));
        }
        let parts = split_once_exec(ls[index].as_slice(), ':');
        match parts {
            None => {
                return Err(PlanPackageError::new("invalid front matter line".to_owned(), "invalid_arguments"));
            },
            Some((k, v)) => {
                let key = trim_exec(&k);
                let value = trim_exec(&v);
                if eq_lit(&value, "[]") {
                    let none: Vec<Vec<char>> = Vec::new();
                    proof {
                        assert(views(none@) =~= Seq::<Seq<char>>::empty());
                    }
                    fm.arrays.push((key, none));
                    proof {
                        assert(array_views(fm.arrays@) =~= ar0.push((key@, Seq::<Seq<char>>::empty())));
                    }
                    index = index + 1;
                } else if value.len() > 0 {
                    fm.scalars.push((key, value));
                    proof {
                        assert(scalar_views(fm.scalars@) =~= sc0.push((key@, value@)));
                    }
                    index = index + 1;
                } else {
                    let (items, consumed) = collect_yaml_array(&ls, index + 1);
                    fm.arrays.push((key, items));
                    proof {
                        assert(array_views(fm.arrays@) =~= ar0.push((key@, views(items@))));
                        lemma_yaml_run_le(rest.drop_first());
                        assert(rest.drop_first().subrange(consumed as int, rest.drop_first().len() as int) =~= views(ls@).subrange(index + 1 + consumed, ls@.len() as int));
                    }
                    index = index + 1 + consumed;
                }
            },
        }
    }
    proof {
        assert(views(ls@).subrange(index as int, ls@.len() as int).len() == 0);
    }
    Ok(fm)
}

/// Reads the front matter of `plan.md`.
#[verifier::rlimit(40)]
pub fn parse_front_matter_exec(markdown: &[char]) -> (r: Result<FrontMatter, PlanPackageError>)
    ensures
        match r {
            Ok(fm) => parse_front_matter(markdown@) == Ok::<_, (Seq<char>, Seq<char>)>(fm_view(fm)),
            Err(e) => parse_front_matter(markdown@) == Err::<(Seq<(Seq<char>, Seq<char>)>, Seq<(Seq<char>, Seq<Seq<char>>)>), _>(e@),
        },
{
    let rest = match strip_prefix_lit(markdown, "---\n") {
        Some(rest) => rest,
        None => {
            return Err(PlanPackageError::new("plan.md missing YAML front matter".to_owned(), "invalid_arguments"));
        },
    };
    let marker = chars_of("\n---");
    let end = match find_exec(&rest, &marker) {
        Some(end) => end,
        None => {
            return Err(PlanPackageError::new("plan.md front matter is not closed".to_owned(), "invalid_arguments"));
        },
    };
    let block = slice_vec(&rest, 0, end);
    proof {
        assert(strip_prefix(markdown@, "---\n"@) == Some(rest@));
        assert(find(rest@, "\n---"@) == Some(end as int));
    }
    parse_front_matter_block(&block)
}

// ---------------------------------------------------------------------------
// Metadata

/// The metadata that a `plan.md` must declare.
#[derive(Debug)]
pub struct PlanMetadata {
    pub status: Vec<char>,
    pub target_path: Vec<char>,
    pub target_type: CadQueryObjectKind,
    pub affected_files: Vec<Vec<char>>,
    pub new_files: Vec<Vec<char>>,
    pub export_targets: Vec<Vec<char>>,
}

pub struct PlanMetadataView {
    pub status: Seq<char>,
    pub target_path: Seq<char>,
    pub target_type: CadQueryObjectKind,
    pub affected_files: Seq<Seq<char>>,
    pub new_files: Seq<Seq<char>>,
    pub export_targets: Seq<Seq<char>>,
}

pub open spec fn metadata_view(m: PlanMetadata) -> PlanMetadataView {
    PlanMetadataView {
        status: m.status@,
        target_path: m.target_path@,
        target_type: m.target_type,
        affected_files: views(m.affected_files@),
        new_files: views(m.new_files@),
        export_targets: views(m.export_targets@),
    }
}

/// A non-blank scalar.
pub open spec fn required_scalar(sc: Seq<(Seq<char>, Seq<char>)>, key: Seq<char>) -> Result<Seq<char>, (Seq<char>, Seq<char>)> {
    match lookup(sc, key) {
        Some(v) => if trim(v).len() > 0 {
            Ok(v)
        } else {
            Err(perr("missing required front matter field "@ + key, "invalid_arguments"@))
        },
        None => Err(perr("missing required front matter field "@ + key, "invalid_arguments"@)),
    }
}

/// A scalar that must equal an expected value.
pub open spec fn require_equal(sc: Seq<(Seq<char>, Seq<char>)>, key: Seq<char>, expected: Seq<char>) -> Result<(), (Seq<char>, Seq<char>)> {
    match required_scalar(sc, key) {
        Err(e) => Err(e),
        Ok(v) => if v == expected {
            Ok(())
        } else {
            Err(perr(key + " does not match plan package"@, "invalid_arguments"@))
        },
    }
}

/// A non-empty array.
pub open spec fn required_array(ar: Seq<(Seq<char>, Seq<Seq<char>>)>, key: Seq<char>) -> Result<Seq<Seq<char>>, (Seq<char>, Seq<char>)> {
    match lookup(ar, key) {
        None => Err(perr("missing required front matter array "@ + key, "invalid_arguments"@)),
        Some(v) => if v.len() == 0 {
            Err(perr(key + " must not be empty"@, "invalid_arguments"@))
        } else {
            Ok(v)
        },
    }
}

/// A path normalized for a field, or the field's error.
pub open spec fn normalize_field_path(path: Seq<char>, field: Seq<char>) -> Result<Seq<char>, (Seq<char>, Seq<char>)> {
    match normalize_trimmed_path(path) {
        Ok(p) => Ok(p),
        Err(PathRejection::NotWorkspaceRelative) => Err(perr(field + " must be workspace-relative"@, "permission_denied"@)),
        Err(PathRejection::ParentSegment) => Err(perr(field + " must not contain '..'"@, "permission_denied"@)),
    }
}

/// A normalized CadQuery model path for a field.
pub open spec fn normalize_model_path(path: Seq<char>, field: Seq<char>) -> Result<Seq<char>, (Seq<char>, Seq<char>)> {
    match normalize_field_path(path, field) {
        Err(e) => Err(e),
        Ok(p) => if !is_model_root(first_segment(p)) {
            Err(perr(field + " must be a CadQuery model path"@, "permission_denied"@))
        } else if !ends_with(p, ".py"@) {
            Err(perr(field + " must end with .py"@, "invalid_arguments"@))
        } else {
            Ok(p)
        },
    }
}

/// Every path normalized; the first failure is the error.
pub open spec fn normalize_paths(paths: Seq<Seq<char>>, field: Seq<char>) -> Result<Seq<Seq<char>>, (Seq<char>, Seq<char>)>
    decreases paths.len(),
{
    if paths.len() == 0 {
        Ok(Seq::<Seq<char>>::empty())
    } else {
        match normalize_paths(paths.drop_last(), field) {
            Err(e) => Err(e),
            Ok(done) => match normalize_field_path(paths.last(), field) {
                Err(e) => Err(e),
                Ok(p) => Ok(done.push(p)),
            },
        }
    }
}

pub open spec fn parse_target_type(value: Seq<char>) -> Result<CadQueryObjectKind, (Seq<char>, Seq<char>)> {
    if value == "assembly"@ {
        Ok(CadQueryObjectKind::Assembly)
    } else if value == "component"@ {
        Ok(CadQueryObjectKind::Component)
    } else if value == "part"@ {
        Ok(CadQueryObjectKind::Part)
    } else {
        Err(perr("target_type must be part, component, or assembly"@, "invalid_arguments"@))
    }
}

/// The kind that a model path's root implies.
pub open spec fn kind_for_root(first: Seq<char>) -> CadQueryObjectKind {
    if first == "assemblies"@ {
        CadQueryObjectKind::Assembly
    } else if first == "components"@ {
        CadQueryObjectKind::Component
    } else {
        CadQueryObjectKind::Part
    }
}

/// Whether `export` is `outputs/<stem>.<ext>` for the target's stem.
pub open spec fn matches_runner_export_target(target: Seq<char>, export: Seq<char>) -> bool {
    match file_stem(target) {
        None => false,
        Some(stem) => export == "outputs/"@ + stem + ".step"@ || export == "outputs/"@ + stem + ".stl"@
            || export == "outputs/"@ + stem + ".3mf"@,
    }
}

/// Every export target normalized, under `outputs/`, of a supported
/// extension and named after the target.
pub open spec fn normalize_export_targets(target: Seq<char>, exports: Seq<Seq<char>>) -> Result<Seq<Seq<char>>, (Seq<char>, Seq<char>)>
    decreases exports.len(),
{
    if exports.len() == 0 {
        Ok(Seq::<Seq<char>>::empty())
    } else {
        match normalize_export_targets(target, exports.drop_last()) {
            Err(e) => Err(e),
            Ok(done) => match normalize_field_path(exports.last(), "export_targets"@) {
                Err(e) => Err(e),
                Ok(p) => if first_segment(p) != "outputs"@ || !supported_export_extension(p) {
                    Err(perr("export_targets must use outputs/*.step, .stl, or .3mf"@, "invalid_arguments"@))
                } else if !matches_runner_export_target(target, p) {
                    Err(perr("export_targets must match runner output names for target_path"@, "invalid_arguments"@))
                } else {
                    Ok(done.push(p))
                },
            },
        }
    }
}

/// The metadata of a plan, in the order the checks are made.
pub open spec fn normalized_metadata(
    sc: Seq<(Seq<char>, Seq<char>)>,
    ar: Seq<(Seq<char>, Seq<Seq<char>>)>,
    plan_id: Seq<char>,
) -> Result<PlanMetadataView, (Seq<char>, Seq<char>)> {
    if let Err(e) = require_equal(sc, "plan_id"@, plan_id) {
        Err(e)
    } else if let Err(e) = require_equal(sc, "mode"@, "plan"@) {
        Err(e)
    } else if let Err(e) = require_equal(sc, "status"@, "planned"@) {
        Err(e)
    } else {
        let status = required_scalar(sc, "status"@)->Ok_0;
        match required_scalar(sc, "target_path"@) {
            Err(e) => Err(e),
            Ok(raw_target) => match normalize_model_path(raw_target, "target_path"@) {
                Err(e) => Err(e),
                Ok(target_path) => match required_scalar(sc, "target_type"@) {
                    Err(e) => Err(e),
                    Ok(raw_type) => match parse_target_type(raw_type) {
                        Err(e) => Err(e),
                        Ok(target_type) => if target_type != kind_for_root(first_segment(target_path)) {
                            Err(perr("target_type does not match target_path"@, "invalid_arguments"@))
                        } else {
                            match required_array(ar, "affected_files"@) {
                                Err(e) => Err(e),
                                Ok(raw_affected) => match normalize_paths(raw_affected, "affected_files"@) {
                                    Err(e) => Err(e),
                                    Ok(affected) => {
                                        let raw_new = match lookup(ar, "new_files"@) {
                                            Some(v) => v,
                                            None => Seq::<Seq<char>>::empty(),
                                        };
                                        match normalize_paths(raw_new, "new_files"@) {
                                            Err(e) => Err(e),
                                            Ok(new_files) => if !affected.contains(target_path) && !new_files.contains(target_path) {
                                                Err(perr("target_path must be in affected_files or new_files"@, "invalid_arguments"@))
                                            } else {
                                                match required_array(ar, "export_targets"@) {
                                                    Err(e) => Err(e),
                                                    Ok(raw_exports) => match normalize_export_targets(target_path, raw_exports) {
                                                        Err(e) => Err(e),
                                                        Ok(exports) => Ok(PlanMetadataView {
                                                            status,
                                                            target_path,
                                                            target_type,
                                                            affected_files: affected,
                                                            new_files,
                                                            export_targets: exports,
                                                        }),
                                                    },
                                                }
                                            },
                                        }
                                    },
                                },
                            }
                        },
                    },
                },
            },
        }
    }
}

/// The metadata of a `plan.md` for a plan id.
pub open spec fn parse_plan_metadata(markdown: Seq<char>, plan_id: Seq<char>) -> Result<PlanMetadataView, (Seq<char>, Seq<char>)> {
    match parse_front_matter(markdown) {
        Err(e) => Err(e),
        Ok((sc, ar)) => normalized_metadata(sc, ar, plan_id),
    }
}


// ---------------------------------------------------------------------------
// Executable metadata rules

pub open spec fn res_text(r: Result<Vec<char>, PlanPackageError>) -> Result<Seq<char>, (Seq<char>, Seq<char>)> {
    match r {
        Ok(t) => Ok(t@),
        Err(e) => Err(e@),
    }
}

pub open spec fn res_texts(r: Result<Vec<Vec<char>>, PlanPackageError>) -> Result<Seq<Seq<char>>, (Seq<char>, Seq<char>)> {
    match r {
        Ok(t) => Ok(views(t@)),
        Err(e) => Err(e@),
    }
}

pub open spec fn res_unit(r: Result<(), PlanPackageError>) -> Result<(), (Seq<char>, Seq<char>)> {
    match r {
        Ok(t) => Ok(t),
        Err(e) => Err(e@),
    }
}

pub open spec fn res_kind(r: Result<CadQueryObjectKind, PlanPackageError>) -> Result<CadQueryObjectKind, (Seq<char>, Seq<char>)> {
    match r {
        Ok(t) => Ok(t),
        Err(e) => Err(e@),
    }
}

/// An error whose message is `prefix` and then `key`.
fn prefix_err(prefix: &str, key: &[char], ty: &'static str) -> (e: PlanPackageError)
    ensures
        e@ == (prefix@ + key@, ty@),
{
    let mut m = chars_of(prefix);
    append_chars(&mut m, key);
    PlanPackageError::from_chars(&m, ty)
}

/// An error whose message is `key` and then `suffix`.
fn suffix_err(key: &[char], suffix: &str, ty: &'static str) -> (e: PlanPackageError)
    ensures
        e@ == (key@ + suffix@, ty@),
{
    let mut m = slice_vec(key, 0, key.len());
    append_lit(&mut m, suffix);
    proof {
        assert(key@.subrange(0, key@.len() as int) =~= key@);
    }
    PlanPackageError::from_chars(&m, ty)
}

fn lookup_scalar(sc: &Vec<(Vec<char>, Vec<char>)>, key: &[char]) -> (r: Option<Vec<char>>)
    ensures
        match r {
            Some(v) => lookup(scalar_views(sc@), key@) == Some(v@),
            None => lookup(scalar_views(sc@), key@) is None,
        },
{
    let mut i: usize = sc.len();
    proof {
        assert(scalar_views(sc@).take(sc@.len() as int) =~= scalar_views(sc@));
    }
    while i > 0
        invariant
            i <= sc.len(),
            lookup(scalar_views(sc@), key@) == lookup(scalar_views(sc@).take(i as int), key@),
        decreases i,
    {
        let ghost t = scalar_views(sc@).take(i as int);
        proof {
            assert(t.last() == (sc@[i - 1].0@, sc@[i - 1].1@));
            assert(t.drop_last() =~= scalar_views(sc@).take(i - 1));
        }
        if seq_eq(sc[i - 1].0.as_slice(), key) {
            return Some(slice_vec(sc[i - 1].1.as_slice(), 0, sc[i - 1].1.len()));
        }
        i = i - 1;
    }
    None
}

fn lookup_array(ar: &Vec<(Vec<char>, Vec<Vec<char>>)>, key: &[char]) -> (r: Option<Vec<Vec<char>>>)
    ensures
        match r {
            Some(v) => lookup(array_views(ar@), key@) == Some(views(v@)),
            None => lookup(array_views(ar@), key@) is None,
        },
{
    let mut i: usize = ar.len();
    proof {
        assert(array_views(ar@).take(ar@.len() as int) =~= array_views(ar@));
    }
    while i > 0
        invariant
            i <= ar.len(),
            lookup(array_views(ar@), key@) == lookup(array_views(ar@).take(i as int), key@),
        decreases i,
    {
        let ghost t = array_views(ar@).take(i as int);
        proof {
            assert(t.last() == (ar@[i - 1].0@, views(ar@[i - 1].1@)));
            assert(t.drop_last() =~= array_views(ar@).take(i - 1));
        }
        if seq_eq(ar[i - 1].0.as_slice(), key) {
            let items = clone_texts(&ar[i - 1].1);
            return Some(items);
        }
        i = i - 1;
    }
    None
}

/// A copy of a list of texts.
pub fn clone_texts(v: &Vec<Vec<char>>) -> (r: Vec<Vec<char>>)
    ensures
        views(r@) == views(v@),
{
    let mut r: Vec<Vec<char>> = Vec::new();
    let mut i: usize = 0;
    while i < v.len()
        invariant
            i <= v.len(),
            views(r@) == views(v@).take(i as int),
        decreases v.len() - i,
    {
        let c = slice_vec(v[i].as_slice(), 0, v[i].len());
        let ghost before = views(r@);
        r.push(c);
        proof {
            assert(v@[i as int]@.subrange(0, v@[i as int]@.len() as int) =~= v@[i as int]@);
            assert(views(r@) =~= before.push(c@));
            assert(views(v@).take(i + 1) =~= views(v@).take(i as int).push(v@[i as int]@));
        }
        i = i + 1;
    }
    proof {
        assert(views(v@).take(v@.len() as int) =~= views(v@));
    }
    r
}

fn required_scalar_exec(sc: &Vec<(Vec<char>, Vec<char>)>, key: &[char]) -> (r: Result<Vec<char>, PlanPackageError>)
    ensures
        res_text(r) == required_scalar(scalar_views(sc@), key@),
{
    match lookup_scalar(sc, key) {
        Some(v) => {
            let t = trim_exec(&v);
            if t.len() > 0 {
                Ok(v)
            } else {
                Err(prefix_err("missing required front matter field ", key, "invalid_arguments"))
            }
        },
        None => Err(prefix_err("missing required front matter field ", key, "invalid_arguments")),
    }
}

fn require_equal_exec(sc: &Vec<(Vec<char>, Vec<char>)>, key: &str, expected: &[char]) -> (r: Result<(), PlanPackageError>)
    ensures
        res_unit(r) == require_equal(scalar_views(sc@), key@, expected@),
{
    let k = chars_of(key);
    let actual = required_scalar_exec(sc, &k);
    match actual {
        Err(e) => Err(e),
        Ok(v) => {
            if seq_eq(&v, expected) {
                Ok(())
            } else {
                Err(suffix_err(&k, " does not match plan package", "invalid_arguments"))
            }
        },
    }
}

fn required_array_exec(ar: &Vec<(Vec<char>, Vec<Vec<char>>)>, key: &str) -> (r: Result<Vec<Vec<char>>, PlanPackageError>)
    ensures
        res_texts(r) == required_array(array_views(ar@), key@),
{
    let k = chars_of(key);
    match lookup_array(ar, &k) {
        None => Err(prefix_err("missing required front matter array ", &k, "invalid_arguments")),
        Some(v) => {
            if v.len() == 0 {
                Err(suffix_err(&k, " must not be empty", "invalid_arguments"))
            } else {
                Ok(v)
            }
        },
    }
}

/// A path normalized for a field of a plan.
pub fn normalize_field_path_exec(path: &[char], field: &str) -> (r: Result<Vec<char>, PlanPackageError>)
    ensures
        res_text(r) == normalize_field_path(path@, field@),
{
    let n = normalize_trimmed_path_exec(path);
    let f = chars_of(field);
    match n {
        Ok(p) => Ok(p),
        Err(PathRejection::NotWorkspaceRelative) => Err(suffix_err(&f, " must be workspace-relative", "permission_denied")),
        Err(PathRejection::ParentSegment) => Err(suffix_err(&f, " must not contain '..'", "permission_denied")),
    }
}

fn normalize_model_path_exec(path: &[char], field: &str) -> (r: Result<Vec<char>, PlanPackageError>)
    ensures
        res_text(r) == normalize_model_path(path@, field@),
{
    let f = chars_of(field);
    match normalize_field_path_exec(path, field) {
        Err(e) => Err(e),
        Ok(p) => {
            let first = first_segment_exec(&p);
            if !is_model_root_exec(&first) {
                Err(suffix_err(&f, " must be a CadQuery model path", "permission_denied"))
            } else if !crate::text::ends_with_lit(&p, ".py") {
                Err(suffix_err(&f, " must end with .py", "invalid_arguments"))
            } else {
                Ok(p)
            }
        },
    }
}

fn normalize_paths_exec(paths: &Vec<Vec<char>>, field: &str) -> (r: Result<Vec<Vec<char>>, PlanPackageError>)
    ensures
        res_texts(r) == normalize_paths(views(paths@), field@),
{
    let mut out: Vec<Vec<char>> = Vec::new();
    let mut i: usize = 0;
    proof {
        assert(views(paths@).take(0) =~= Seq::<Seq<char>>::empty());
        assert(views(out@) =~= Seq::<Seq<char>>::empty());
    }
    while i < paths.len()
        invariant
            i <= paths.len(),
            normalize_paths(views(paths@).take(i as int), field@) == Ok::<_, (Seq<char>, Seq<char>)>(views(out@)),
        decreases paths.len() - i,
    {
        proof {
            let t = views(paths@).take(i + 1);
            assert(t.drop_last() =~= views(paths@).take(i as int));
            assert(t.last() == paths@[i as int]@);
        }
        match normalize_field_path_exec(paths[i].as_slice(), field) {
            Err(e) => {
                proof {
                    lemma_normalize_paths_prefix_err(views(paths@), field@, i + 1);
                }
                return Err(e);
            },
            Ok(p) => {
                let ghost before = views(out@);
                out.push(p);
                proof {
                    assert(views(out@) =~= before.push(p@));
                }
            },
        }
        i = i + 1;
    }
    proof {
        assert(views(paths@).take(paths@.len() as int) =~= views(paths@));
    }
    Ok(out)
}

/// Once a prefix fails, the whole list fails with the same error.
pub proof fn lemma_normalize_paths_prefix_err(paths: Seq<Seq<char>>, field: Seq<char>, n: int)
    requires
        0 <= n <= paths.len(),
        normalize_paths(paths.take(n), field) is Err,
    ensures
        normalize_paths(paths, field) == normalize_paths(paths.take(n), field),
    decreases paths.len() - n,
{
    if n < paths.len() {
        assert(paths.take(n + 1).drop_last() =~= paths.take(n));
        lemma_normalize_paths_prefix_err(paths, field, n + 1);
    } else {
        assert(paths.take(n) =~= paths);
    }
}

pub proof fn lemma_export_targets_prefix_err(target: Seq<char>, exports: Seq<Seq<char>>, n: int)
    requires
        0 <= n <= exports.len(),
        normalize_export_targets(target, exports.take(n)) is Err,
    ensures
        normalize_export_targets(target, exports) == normalize_export_targets(target, exports.take(n)),
    decreases exports.len() - n,
{
    if n < exports.len() {
        assert(exports.take(n + 1).drop_last() =~= exports.take(n));
        lemma_export_targets_prefix_err(target, exports, n + 1);
    } else {
        assert(exports.take(n) =~= exports);
    }
}

fn parse_target_type_exec(value: &[char]) -> (r: Result<CadQueryObjectKind, PlanPackageError>)
    ensures
        res_kind(r) == parse_target_type(value@),
{
    if eq_lit(value, "assembly") {
        Ok(CadQueryObjectKind::Assembly)
    } else if eq_lit(value, "component") {
        Ok(CadQueryObjectKind::Component)
    } else if eq_lit(value, "part") {
        Ok(CadQueryObjectKind::Part)
    } else {
        Err(PlanPackageError::new("target_type must be part, component, or assembly".to_owned(), "invalid_arguments"))
    }
}

fn kind_for_root_exec(first: &[char]) -> (r: CadQueryObjectKind)
    ensures
        r == kind_for_root(first@),
{
    if eq_lit(first, "assemblies") {
        CadQueryObjectKind::Assembly
    } else if eq_lit(first, "components") {
        CadQueryObjectKind::Component
    } else {
        CadQueryObjectKind::Part
    }
}

/// `outputs/<stem>.<ext>` for a stem and an extension literal.
fn output_name(stem: &[char], ext: &str) -> (r: Vec<char>)
    ensures
        r@ == "outputs/"@ + stem@ + ext@,
{
    let mut o = chars_of("outputs/");
    append_chars(&mut o, stem);
    append_lit(&mut o, ext);
    o
}

/// Whether an export target is named after the target's stem.
pub fn matches_runner_export_target_exec(target: &[char], export: &[char]) -> (r: bool)
    ensures
        r == matches_runner_export_target(target@, export@),
{
    match file_stem_exec(target) {
        None => false,
        Some(stem) => {
            let a = output_name(&stem, ".step");
            let b = output_name(&stem, ".stl");
            let c = output_name(&stem, ".3mf");
            seq_eq(export, &a) || seq_eq(export, &b) || seq_eq(export, &c)
        },
    }
}

fn normalize_export_targets_exec(target: &[char], exports: &Vec<Vec<char>>) -> (r: Result<Vec<Vec<char>>, PlanPackageError>)
    ensures
        res_texts(r) == normalize_export_targets(target@, views(exports@)),
{
    let mut out: Vec<Vec<char>> = Vec::new();
    let mut i: usize = 0;
    proof {
        assert(views(exports@).take(0) =~= Seq::<Seq<char>>::empty());
        assert(views(out@) =~= Seq::<Seq<char>>::empty());
    }
    while i < exports.len()
        invariant
            i <= exports.len(),
            normalize_export_targets(target@, views(exports@).take(i as int)) == Ok::<_, (Seq<char>, Seq<char>)>(views(out@)),
        decreases exports.len() - i,
    {
        proof {
            let t = views(exports@).take(i + 1);
            assert(t.drop_last() =~= views(exports@).take(i as int));
            assert(t.last() == exports@[i as int]@);
        }
        let n = normalize_field_path_exec(exports[i].as_slice(), "export_targets");
        let p = match n {
            Err(e) => {
                proof {
                    lemma_export_targets_prefix_err(target@, views(exports@), i + 1);
                }
                return Err(e);
            },
            Ok(p) => p,
        };
        let first = first_segment_exec(&p);
        if !eq_lit(&first, "outputs") || !supported_export_extension_exec(&p) {
            proof {
                lemma_export_targets_prefix_err(target@, views(exports@), i + 1);
            }
            return Err(PlanPackageError::new("export_targets must use outputs/*.step, .stl, or .3mf".to_owned(), "invalid_arguments"));
        }
        if !matches_runner_export_target_exec(target, &p) {
            proof {
                lemma_export_targets_prefix_err(target@, views(exports@), i + 1);
            }
            return Err(PlanPackageError::new("export_targets must match runner output names for target_path".to_owned(), "invalid_arguments"));
        }
        let ghost before = views(out@);
        out.push(p);
        proof {
            assert(views(out@) =~= before.push(p@));
        }
        i = i + 1;
    }
    proof {
        assert(views(exports@).take(exports@.len() as int) =~= views(exports@));
    }
    Ok(out)
}

fn texts_contain(v: &Vec<Vec<char>>, x: &[char]) -> (r: bool)
    ensures
        r == views(v@).contains(x@),
{
    let mut i: usize = 0;
    while i < v.len()
        invariant
            i <= v.len(),
            forall|j: int| 0 <= j < i ==> views(v@)[j] != x@,
        decreases v.len() - i,
    {
        if seq_eq(v[i].as_slice(), x) {
            proof {
                assert(views(v@)[i as int] == x@);
            }
            return true;
        }
        i = i + 1;
    }
    false
}

pub open spec fn meta_view(r: Result<PlanMetadata, PlanPackageError>) -> Result<PlanMetadataView, (Seq<char>, Seq<char>)> {
    match r {
        Ok(m) => Ok(metadata_view(m)),
        Err(e) => Err(e@),
    }
}

/// The metadata of a plan's front matter for a plan id.
#[verifier::rlimit(60)]
pub fn normalized_metadata_exec(fm: &FrontMatter, plan_id: &[char]) -> (r: Result<PlanMetadata, PlanPackageError>)
    ensures
        meta_view(r) == normalized_metadata(scalar_views(fm.scalars@), array_views(fm.arrays@), plan_id@),
{
    let sc = &fm.scalars;
    let ar = &fm.arrays;
    let plan = chars_of("plan");
    let planned = chars_of("planned");
    if let Err(e) = require_equal_exec(sc, "plan_id", plan_id) {
        return Err(e);
    }
    if let Err(e) = require_equal_exec(sc, "mode", &plan) {
        return Err(e);
    }
    if let Err(e) = require_equal_exec(sc, "status", &planned) {
        return Err(e);
    }
    let status_key = chars_of("status");
    let status = match required_scalar_exec(sc, &status_key) {
        Ok(v) => v,
        Err(e) => return Err(e),
    };
    let tp_key = chars_of("target_path");
    let raw_target = match required_scalar_exec(sc, &tp_key) {
        Ok(v) => v,
        Err(e) => return Err(e),
    };
    let target_path = match normalize_model_path_exec(&raw_target, "target_path") {
        Ok(v) => v,
        Err(e) => return Err(e),
    };
    let tt_key = chars_of("target_type");
    let raw_type = match required_scalar_exec(sc, &tt_key) {
        Ok(v) => v,
        Err(e) => return Err(e),
    };
    let target_type = match parse_target_type_exec(&raw_type) {
        Ok(v) => v,
        Err(e) => return Err(e),
    };
    let first = first_segment_exec(&target_path);
    if target_type != kind_for_root_exec(&first) {
        return Err(PlanPackageError::new("target_type does not match target_path".to_owned(), "invalid_arguments"));
    }
    let raw_affected = match required_array_exec(ar, "affected_files") {
        Ok(v) => v,
        Err(e) => return Err(e),
    };
    let affected = match normalize_paths_exec(&raw_affected, "affected_files") {
        Ok(v) => v,
        Err(e) => return Err(e),
    };
    let nf_key = chars_of("new_files");
    let raw_new = match lookup_array(ar, &nf_key) {
        Some(v) => v,
        None => {
            let none: Vec<Vec<char>> = Vec::new();
            proof {
                assert(views(none@) =~= Seq::<Seq<char>>::empty());
            }
            none
        },
    };
    let new_files = match normalize_paths_exec(&raw_new, "new_files") {
        Ok(v) => v,
        Err(e) => return Err(e),
    };
    if !texts_contain(&affected, &target_path) && !texts_contain(&new_files, &target_path) {
        return Err(PlanPackageError::new("target_path must be in affected_files or new_files".to_owned(), "invalid_arguments"));
    }
    let raw_exports = match required_array_exec(ar, "export_targets") {
        Ok(v) => v,
        Err(e) => return Err(e),
    };
    let exports = match normalize_export_targets_exec(&target_path, &raw_exports) {
        Ok(v) => v,
        Err(e) => return Err(e),
    };
    Ok(PlanMetadata { status, target_path, target_type, affected_files: affected, new_files, export_targets: exports })
}

/// The metadata of a `plan.md` for a plan id.
pub fn parse_plan_metadata_exec(markdown: &[char], plan_id: &[char]) -> (r: Result<PlanMetadata, PlanPackageError>)
    ensures
        meta_view(r) == parse_plan_metadata(markdown@, plan_id@),
{
    match parse_front_matter_exec(markdown) {
        Err(e) => Err(e),
        Ok(fm) => normalized_metadata_exec(&fm, plan_id),
    }
}

/// A model root names its kind and a kind its root: the kind a root implies
/// is the kind whose sources live under that root (`parts` for parts,
/// `components` for components, `assemblies` for assemblies), and the label
/// of a kind reads back as that kind; so a plan's `target_type` agrees with
/// its `target_path` exactly when the path lies under the type's root.
pub proof fn law_root_and_kind_agree(kind: CadQueryObjectKind, root: Seq<char>)
    ensures
        kind_for_root(kind_root(kind)) == kind,
        is_model_root(root) ==> kind_root(kind_for_root(root)) == root,
        parse_target_type(kind_label(kind)) == Ok::<CadQueryObjectKind, (Seq<char>, Seq<char>)>(kind),
        is_model_root(root) ==> (kind_for_root(root) == kind <==> root == kind_root(kind)),
{
    reveal_strlit("parts");
    reveal_strlit("components");
    reveal_strlit("assemblies");
    reveal_strlit("part");
    reveal_strlit("component");
    reveal_strlit("assembly");
    assert("parts"@.len() == 5 && "components"@.len() == 10 && "assemblies"@.len() == 10);
    assert("part"@.len() == 4 && "component"@.len() == 9 && "assembly"@.len() == 8);
    assert("parts"@ != "assemblies"@ && "parts"@ != "components"@);
    assert("components"@[0] != "assemblies"@[0]);
    assert("components"@ != "assemblies"@);
    assert("component"@ != "assembly"@ && "part"@ != "assembly"@ && "part"@ != "component"@);
    match kind {
        CadQueryObjectKind::Part => {},
        CadQueryObjectKind::Component => {},
        CadQueryObjectKind::Assembly => {},
    }
}

/// The metadata a plan parses to keeps its model under the root of its type:
/// a `component` lies under `components/`, a `part` under `parts/`, an
/// `assembly` under `assemblies/`.
pub proof fn law_parsed_target_under_its_root(markdown: Seq<char>, plan_id: Seq<char>)
    ensures
        parse_plan_metadata(markdown, plan_id) matches Ok(m) ==> first_segment(m.target_path) == kind_root(m.target_type),
{
    if let Ok(m) = parse_plan_metadata(markdown, plan_id) {
        let (sc, ar) = parse_front_matter(markdown)->Ok_0;
        let raw_target = required_scalar(sc, "target_path"@)->Ok_0;
        assert(normalize_model_path(raw_target, "target_path"@) == Ok::<Seq<char>, (Seq<char>, Seq<char>)>(m.target_path));
        assert(is_model_root(first_segment(m.target_path)));
        assert(m.target_type == kind_for_root(first_segment(m.target_path)));
        law_root_and_kind_agree(m.target_type, first_segment(m.target_path));
    }
}

} // verus!
