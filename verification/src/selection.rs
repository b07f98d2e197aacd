//! What a preview selection says about the file to edit, and the names that
//! generated CadQuery code is given.
use vstd::prelude::*;
use crate::model::{CadQueryObjectKind, kind_root, kind_root_exec};
use crate::text::{
    ascii_lower, ascii_lower_exec, chars_of, is_ascii_alnum, is_ascii_alnum_exec, is_ascii_digit,
    is_ascii_digit_exec, join_with, lemma_split_nonempty, slice_vec, split, split_exec, split_once,
    split_once_exec, string_of, trim, trim_char, trim_char_exec, trim_exec, views,
};

verus! {

/// What a preview selection picked.
#[derive(Debug, Clone, Copy, PartialEq, Eq, Structural)]
pub enum SelectionKind {
    Component,
    Part,
    Assembly,
    Instance,
    Feature,
    Face,
    Edge,
    Vertex,
}

/// A selection in the web preview.
#[derive(Debug, Clone, PartialEq, Eq)]
pub struct SelectionRef {
    pub kind: SelectionKind,
    pub ref_text: String,
    pub owner_ref_text: Option<String>,
    pub owner_object_kind: Option<CadQueryObjectKind>,
    pub instance_path: Option<String>,
    pub candidate_feature_ref: Option<String>,
    pub build_id: Option<String>,
    pub result_id: Option<String>,
    pub ambiguous: bool,
}

pub open spec fn opt_text(o: Option<String>) -> Option<Seq<char>> {
    match o {
        Some(s) => Some(s@),
        None => None,
    }
}

/// The name between the first `[` and the `]` after it, trimmed, when it is
/// not empty.
pub open spec fn object_ref_name(ref_text: Seq<char>) -> Option<Seq<char>> {
    match split_once(ref_text, '[') {
        None => None,
        Some((_, rest)) => match split_once(rest, ']') {
            None => None,
            Some((name, _)) => if trim(name).len() == 0 {
                None
            } else {
                Some(trim(name))
            },
        },
    }
}

fn object_ref_name_exec(ref_text: &[char]) -> (r: Option<Vec<char>>)
    ensures
        match r {
            Some(v) => object_ref_name(ref_text@) == Some(v@),
            None => object_ref_name(ref_text@) is None,
        },
{
    let (_, rest) = match split_once_exec(ref_text, '[') {
        Some(p) => p,
        None => return None,
    };
    let (name, _) = match split_once_exec(&rest, ']') {
        Some(p) => p,
        None => return None,
    };
    let trimmed = trim_exec(&name);
    if trimmed.len() == 0 {
        None
    } else {
        Some(trimmed)
    }
}

/// The source file of the object that a reference text names.
pub open spec fn ref_text_path(ref_text: Option<Seq<char>>, kind: Option<CadQueryObjectKind>) -> Option<Seq<char>> {
    match ref_text {
        None => None,
        Some(t) => match object_ref_name(t) {
            None => None,
            Some(name) => match kind {
                None => None,
                Some(k) => Some(kind_root(k) + "/"@ + name + ".py"@),
            },
        },
    }
}

fn ref_text_path_exec(ref_text: Option<&str>, kind: Option<CadQueryObjectKind>) -> (r: Option<String>)
    ensures
        opt_text(r) == ref_text_path(
            match ref_text {
                Some(t) => Some(t@),
                None => None,
            },
            kind,
        ),
{
    let t = match ref_text {
        Some(t) => t,
        None => return None,
    };
    let name = match object_ref_name_exec(&chars_of(t)) {
        Some(n) => n,
        None => return None,
    };
    let k = match kind {
        Some(k) => k,
        None => return None,
    };
    let mut out = chars_of(kind_root_exec(k));
    out.push('/');
    let mut i: usize = 0;
    let ghost base = out@;
    while i < name.len()
        invariant
            i <= name.len(),
            out@ == base + name@.take(i as int),
        decreases name.len() - i,
    {
        out.push(name[i]);
        proof {
            assert(name@.take(i + 1) =~= name@.take(i as int).push(name@[i as int]));
        }
        i = i + 1;
    }
    let ghost with_name = out@;
    out.push('.');
    out.push('p');
    out.push('y');
    proof {
        assert(name@.take(name.len() as int) =~= name@);
        assert(out@ =~= kind_root(k) + "/"@ + name@ + ".py"@) by {
            reveal_strlit("/");
            reveal_strlit(".py");
        }
    }
    Some(string_of(&out))
}

/// The object kind that a selection of this kind stands for.
pub open spec fn object_kind_from_selection(kind: SelectionKind) -> Option<CadQueryObjectKind> {
    match kind {
        SelectionKind::Part => Some(CadQueryObjectKind::Part),
        SelectionKind::Component => Some(CadQueryObjectKind::Component),
        SelectionKind::Assembly | SelectionKind::Instance => Some(CadQueryObjectKind::Assembly),
        _ => None,
    }
}

fn object_kind_from_selection_exec(kind: SelectionKind) -> (r: Option<CadQueryObjectKind>)
    ensures
        r == object_kind_from_selection(kind),
{
    match kind {
        SelectionKind::Part => Some(CadQueryObjectKind::Part),
        SelectionKind::Component => Some(CadQueryObjectKind::Component),
        SelectionKind::Assembly | SelectionKind::Instance => Some(CadQueryObjectKind::Assembly),
        _ => None,
    }
}

/// The file a selection points at: its owner's, else its own.
pub open spec fn selection_path(s: SelectionRef) -> Option<Seq<char>> {
    match ref_text_path(opt_text(s.owner_ref_text), s.owner_object_kind) {
        Some(p) => Some(p),
        None => ref_text_path(Some(s.ref_text@), object_kind_from_selection(s.kind)),
    }
}

fn owner_or_selection_path(s: &SelectionRef) -> (r: Option<String>)
    ensures
        opt_text(r) == selection_path(*s),
{
    let owner = match &s.owner_ref_text {
        Some(t) => Some(t.as_str()),
        None => None,
    };
    if let Some(p) = ref_text_path_exec(owner, s.owner_object_kind) {
        return Some(p);
    }
    ref_text_path_exec(Some(s.ref_text.as_str()), object_kind_from_selection_exec(s.kind))
}

/// The reference an edit should name: the selection's own text where it is
/// ambiguous, else its candidate feature where that is not blank.
pub open spec fn preferred_ref(s: SelectionRef) -> Seq<char> {
    if s.ambiguous {
        s.ref_text@
    } else {
        match s.candidate_feature_ref {
            Some(c) => if trim(c@).len() > 0 {
                c@
            } else {
                s.ref_text@
            },
            None => s.ref_text@,
        }
    }
}

pub fn preferred_selection_ref(s: &SelectionRef) -> (r: String)
    ensures
        r@ == preferred_ref(*s),
{
    if s.ambiguous {
        return s.ref_text.clone();
    }
    match &s.candidate_feature_ref {
        Some(c) => {
            if trim_exec(&chars_of(c.as_str())).len() > 0 {
                c.clone()
            } else {
                s.ref_text.clone()
            }
        },
        None => s.ref_text.clone(),
    }
}

/// What an edit of the selection aims at.
pub open spec fn edit_goal_of(s: SelectionRef) -> Seq<char> {
    if s.ambiguous {
        "ambiguous selection confirmation required"@
    } else if s.kind == SelectionKind::Assembly {
        "assembly coordination"@
    } else if s.owner_object_kind == Some(CadQueryObjectKind::Component) || s.kind == SelectionKind::Component
        || s.kind == SelectionKind::Instance {
        "component geometry"@
    } else {
        "part geometry"@
    }
}

pub fn edit_goal(s: &SelectionRef) -> (r: &'static str)
    ensures
        r@ == edit_goal_of(*s),
{
    if s.ambiguous {
        return "ambiguous selection confirmation required";
    }
    if s.kind == SelectionKind::Assembly {
        return "assembly coordination";
    }
    let owner_component = match s.owner_object_kind {
        Some(CadQueryObjectKind::Component) => true,
        _ => false,
    };
    if owner_component || s.kind == SelectionKind::Component || s.kind == SelectionKind::Instance {
        return "component geometry";
    }
    "part geometry"
}

/// The selection an edit is about: the one at the active index when there
/// is one there, else the last one.
pub open spec fn active_index(len: int, active: Option<u32>) -> Option<int> {
    match active {
        Some(i) if i < len => Some(i as int),
        _ => if len > 0 {
            Some(len - 1)
        } else {
            None
        },
    }
}

pub fn active_selection(selections: &Vec<SelectionRef>, active: Option<u32>) -> (r: Option<usize>)
    ensures
        match r {
            Some(i) => active_index(selections@.len() as int, active) == Some(i as int) && i < selections@.len(),
            None => active_index(selections@.len() as int, active) is None,
        },
{
    if let Some(i) = active {
        if (i as usize) < selections.len() {
            return Some(i as usize);
        }
    }
    if selections.len() > 0 {
        Some(selections.len() - 1)
    } else {
        None
    }
}

/// The file an edit of the selection targets, and what it aims at.
#[derive(Debug, Clone, PartialEq, Eq)]
pub struct SelectionTargetDecision {
    pub selection_ref: String,
    pub target_path: Option<String>,
    pub affected_paths: Vec<String>,
    pub edit_goal: &'static str,
}

pub open spec fn string_views(v: Seq<String>) -> Seq<Seq<char>> {
    v.map_values(|s: String| s@)
}

/// The decision for the active selection, if there is any selection.
pub open spec fn decision_fits(selections: Seq<SelectionRef>, active: Option<u32>, d: Option<SelectionTargetDecision>) -> bool {
    match active_index(selections.len() as int, active) {
        None => d is None,
        Some(i) => d matches Some(d) && {
            let s = selections[i];
            &&& d.selection_ref@ == preferred_ref(s)
            &&& opt_text(d.target_path) == selection_path(s)
            &&& string_views(d.affected_paths@) == match selection_path(s) {
                Some(p) => seq![p],
                None => Seq::<Seq<char>>::empty(),
            }
            &&& d.edit_goal@ == edit_goal_of(s)
        },
    }
}

pub fn selection_target_decision(selections: &Vec<SelectionRef>, active: Option<u32>) -> (r: Option<
    SelectionTargetDecision,
>)
    ensures
        decision_fits(selections@, active, r),
{
    let i = match active_selection(selections, active) {
        Some(i) => i,
        None => return None,
    };
    let s = &selections[i];
    let target_path = owner_or_selection_path(s);
    let mut affected_paths: Vec<String> = Vec::new();
    match &target_path {
        Some(p) => {
            affected_paths.push(p.clone());
        },
        None => {},
    }
    proof {
        if target_path is Some {
            assert(string_views(affected_paths@) =~= seq![target_path->0@]);
        } else {
            assert(string_views(affected_paths@) =~= Seq::<Seq<char>>::empty());
        }
    }
    Some(SelectionTargetDecision {
        selection_ref: preferred_selection_ref(s),
        target_path,
        affected_paths,
        edit_goal: edit_goal(s),
    })
}

/// The files an edit touches, as the reply shows them.
pub open spec fn affected_text(d: SelectionTargetDecision) -> Seq<char> {
    if d.affected_paths@.len() == 0 {
        match d.target_path {
            Some(p) => p@,
            None => "未确认 CadQuery 目标文件"@,
        }
    } else {
        join_with(string_views(d.affected_paths@), ", "@)
    }
}

pub fn affected_paths_text(d: &SelectionTargetDecision) -> (r: String)
    ensures
        r@ == affected_text(*d),
{
    if d.affected_paths.len() == 0 {
        return match &d.target_path {
            Some(p) => p.clone(),
            None => "未确认 CadQuery 目标文件".to_owned(),
        };
    }
    let sep = chars_of(", ");
    let mut out: Vec<char> = Vec::new();
    let mut i: usize = 0;
    let ghost all = string_views(d.affected_paths@);
    proof {
        assert(all.take(0) =~= Seq::<Seq<char>>::empty());
    }
    while i < d.affected_paths.len()
        invariant
            i <= d.affected_paths.len(),
            all == string_views(d.affected_paths@),
            sep@ == ", "@,
            out@ == join_with(all.take(i as int), ", "@),
        decreases d.affected_paths.len() - i,
    {
        let item = chars_of(d.affected_paths[i].as_str());
        proof {
            assert(all.take(i + 1).drop_last() =~= all.take(i as int));
            assert(all.take(i + 1).last() == item@);
        }
        if i > 0 {
            let mut k: usize = 0;
            let ghost base = out@;
            while k < sep.len()
                invariant
                    k <= sep.len(),
                    out@ == base + sep@.take(k as int),
                decreases sep.len() - k,
            {
                out.push(sep[k]);
                proof {
                    assert(sep@.take(k + 1) =~= sep@.take(k as int).push(sep@[k as int]));
                }
                k = k + 1;
            }
            proof {
                assert(sep@.take(sep.len() as int) =~= sep@);
            }
        }
        let mut k: usize = 0;
        let ghost base = out@;
        while k < item.len()
            invariant
                k <= item.len(),
                out@ == base + item@.take(k as int),
            decreases item.len() - k,
        {
            out.push(item[k]);
            proof {
                assert(item@.take(k + 1) =~= item@.take(k as int).push(item@[k as int]));
            }
            k = k + 1;
        }
        proof {
            assert(item@.take(item.len() as int) =~= item@);
            if i > 0 {
                assert(out@ =~= join_with(all.take(i as int), ", "@) + ", "@ + item@);
            } else {
                assert(out@ =~= item@);
            }
        }
        i = i + 1;
    }
    proof {
        assert(all.take(all.len() as int) =~= all);
    }
    string_of(&out)
}

// ---------------------------------------------------------------------------
// Names for generated code

/// The part of the last path segment before its first `.`.
pub open spec fn dotted_stem(path: Seq<char>) -> Seq<char> {
    split(split(path, '/').last(), '.')[0]
}

fn dotted_stem_exec(path: &[char]) -> (r: Vec<char>)
    ensures
        r@ == dotted_stem(path@),
{
    let segs = split_exec(path, '/');
    proof {
        lemma_split_nonempty(path@, '/');
    }
    let last = &segs[segs.len() - 1];
    let parts = split_exec(last, '.');
    proof {
        lemma_split_nonempty(last@, '.');
        assert(views(parts@)[0] == parts@[0]@);
    }
    let first = &parts[0];
    let r = slice_vec(first, 0, first.len());
    proof {
        assert(first@.subrange(0, first@.len() as int) =~= first@);
    }
    r
}

/// The STEP export that goes with a model file: `outputs/<stem>.step`.
pub open spec fn export_target_of(target_path: Seq<char>) -> Seq<char> {
    let stem = dotted_stem(target_path);
    "outputs/"@ + (if stem.len() == 0 {
        "agent_model"@
    } else {
        stem
    }) + ".step"@
}

pub fn export_target_path(target_path: &str) -> (r: String)
    ensures
        r@ == export_target_of(target_path@),
{
    let stem = dotted_stem_exec(&chars_of(target_path));
    let name = if stem.len() == 0 {
        chars_of("agent_model")
    } else {
        stem
    };
    let mut out = chars_of("outputs/");
    let ghost base = out@;
    let mut i: usize = 0;
    while i < name.len()
        invariant
            i <= name.len(),
            out@ == base + name@.take(i as int),
        decreases name.len() - i,
    {
        out.push(name[i]);
        proof {
            assert(name@.take(i + 1) =~= name@.take(i as int).push(name@[i as int]));
        }
        i = i + 1;
    }
    let tail = chars_of(".step");
    let ghost mid = out@;
    let mut k: usize = 0;
    while k < tail.len()
        invariant
            k <= tail.len(),
            out@ == mid + tail@.take(k as int),
        decreases tail.len() - k,
    {
        out.push(tail[k]);
        proof {
            assert(tail@.take(k + 1) =~= tail@.take(k as int).push(tail@[k as int]));
        }
        k = k + 1;
    }
    proof {
        assert(name@.take(name.len() as int) =~= name@);
        assert(tail@.take(tail.len() as int) =~= tail@);
    }
    string_of(&out)
}

/// Each ASCII letter or digit lowercased, anything else made `_`.
pub open spec fn identifier_chars(s: Seq<char>) -> Seq<char> {
    s.map_values(|c: char| if is_ascii_alnum(c) { ascii_lower(c) } else { '_' })
}

/// Every run of `_` made a single `_`.
pub open spec fn squeeze_underscores(s: Seq<char>) -> Seq<char>
    decreases s.len(),
{
    if s.len() == 0 {
        s
    } else {
        let p = squeeze_underscores(s.drop_last());
        if s.last() == '_' && p.len() > 0 && p.last() == '_' {
            p
        } else {
            p.push(s.last())
        }
    }
}

/// The Python identifier of a model file: its stem, lowercased, with every
/// other character made `_`, runs of `_` squeezed and trimmed away; `part_`
/// before a leading digit, `part` when nothing is left.
pub open spec fn identifier_of(path: Seq<char>) -> Seq<char> {
    let t = trim_char(squeeze_underscores(identifier_chars(dotted_stem(path))), '_');
    if t.len() > 0 && is_ascii_digit(t[0]) {
        "part_"@ + t
    } else if t.len() == 0 {
        "part"@
    } else {
        t
    }
}

pub fn target_identifier(path: &str) -> (r: String)
    ensures
        r@ == identifier_of(path@),
{
    let stem = dotted_stem_exec(&chars_of(path));
    let ghost mapped = identifier_chars(stem@);
    let mut squeezed: Vec<char> = Vec::new();
    let mut i: usize = 0;
    proof {
        assert(mapped.take(0) =~= Seq::<char>::empty());
    }
    while i < stem.len()
        invariant
            i <= stem.len(),
            mapped == identifier_chars(stem@),
            squeezed@ == squeeze_underscores(mapped.take(i as int)),
        decreases stem.len() - i,
    {
        let c = stem[i];
        let m = if is_ascii_alnum_exec(c) {
            ascii_lower_exec(c)
        } else {
            '_'
        };
        proof {
            assert(mapped.take(i + 1).drop_last() =~= mapped.take(i as int));
            assert(mapped.take(i + 1).last() == m);
        }
        if !(m == '_' && squeezed.len() > 0 && squeezed[squeezed.len() - 1] == '_') {
            squeezed.push(m);
        }
        i = i + 1;
    }
    proof {
        assert(mapped.take(stem.len() as int) =~= mapped);
    }
    let t = trim_char_exec(&squeezed, '_');
    if t.len() > 0 && is_ascii_digit_exec(t[0]) {
        let mut out = chars_of("part_");
        let ghost base = out@;
        let mut k: usize = 0;
        while k < t.len()
            invariant
                k <= t.len(),
                out@ == base + t@.take(k as int),
            decreases t.len() - k,
        {
            out.push(t[k]);
            proof {
                assert(t@.take(k + 1) =~= t@.take(k as int).push(t@[k as int]));
            }
            k = k + 1;
        }
        proof {
            assert(t@.take(t.len() as int) =~= t@);
        }
        string_of(&out)
    } else if t.len() == 0 {
        "part".to_owned()
    } else {
        string_of(&t)
    }
}

/// A text escaped for a double-quoted Python string: each `\` and `"`
/// preceded by a `\`.
pub open spec fn python_escaped(s: Seq<char>) -> Seq<char>
    decreases s.len(),
{
    if s.len() == 0 {
        s
    } else {
        let p = python_escaped(s.drop_last());
        if s.last() == '\\' || s.last() == '"' {
            p.push('\\').push(s.last())
        } else {
            p.push(s.last())
        }
    }
}

pub fn python_string(value: &str) -> (r: String)
    ensures
        r@ == python_escaped(value@),
{
    let cs = chars_of(value);
    let mut out: Vec<char> = Vec::new();
    let mut i: usize = 0;
    proof {
        assert(cs@.take(0) =~= Seq::<char>::empty());
    }
    while i < cs.len()
        invariant
            i <= cs.len(),
            out@ == python_escaped(cs@.take(i as int)),
        decreases cs.len() - i,
    {
        proof {
            assert(cs@.take(i + 1).drop_last() =~= cs@.take(i as int));
        }
        let c = cs[i];
        if c == '\\' || c == '"' {
            out.push('\\');
        }
        out.push(c);
        i = i + 1;
    }
    proof {
        assert(cs@.take(cs.len() as int) =~= cs@);
    }
    string_of(&out)
}

proof fn lemma_root_slash()
    ensures
        "parts"@ + "/"@ == "parts/"@,
        "components"@ + "/"@ == "components/"@,
        "assemblies"@ + "/"@ == "assemblies/"@,
{
    reveal_strlit("parts");
    reveal_strlit("components");
    reveal_strlit("assemblies");
    reveal_strlit("/");
    reveal_strlit("parts/");
    reveal_strlit("components/");
    reveal_strlit("assemblies/");
    assert("parts"@ + "/"@ =~= "parts/"@);
    assert("components"@ + "/"@ =~= "components/"@);
    assert("assemblies"@ + "/"@ =~= "assemblies/"@);
}

/// A selected part, component or assembly with no owner is edited in its
/// own source: the file named after its bracketed name under `parts/`,
/// `components/` or `assemblies/`.
pub proof fn law_object_selection_targets_its_source(s: SelectionRef, name: Seq<char>)
    requires
        s.owner_ref_text is None,
        object_ref_name(s.ref_text@) == Some(name),
    ensures
        s.kind == SelectionKind::Part ==> selection_path(s) == Some("parts/"@ + name + ".py"@),
        s.kind == SelectionKind::Component ==> selection_path(s) == Some("components/"@ + name + ".py"@),
        s.kind == SelectionKind::Assembly ==> selection_path(s) == Some("assemblies/"@ + name + ".py"@),
        s.kind == SelectionKind::Instance ==> selection_path(s) == Some("assemblies/"@ + name + ".py"@),
        s.kind == SelectionKind::Feature || s.kind == SelectionKind::Face || s.kind == SelectionKind::Edge || s.kind
            == SelectionKind::Vertex ==> selection_path(s) is None,
{
    lemma_root_slash();
    assert(ref_text_path(opt_text(s.owner_ref_text), s.owner_object_kind) is None);
}

/// The decision for such a selection edits that source, and it is the one
/// file the edit affects.
pub proof fn law_object_selection_decision(s: SelectionRef, name: Seq<char>, d: SelectionTargetDecision)
    requires
        s.owner_ref_text is None,
        object_ref_name(s.ref_text@) == Some(name),
        s.kind == SelectionKind::Part || s.kind == SelectionKind::Component || s.kind == SelectionKind::Assembly,
        decision_fits(seq![s], None, Some(d)),
    ensures
        opt_text(d.target_path) == Some(kind_root(object_kind_from_selection(s.kind)->0) + "/"@ + name + ".py"@),
        string_views(d.affected_paths@) == seq![opt_text(d.target_path)->0],
{
    law_object_selection_targets_its_source(s, name);
    assert(seq![s][0] == s);
    assert(active_index(1, None) == Some(0int));
}

/// A selection inside an owner is edited in the owner's source: the file
/// named after the owner's bracketed name under its kind's root, whatever
/// was picked inside it.
pub proof fn law_owned_selection_targets_owner(s: SelectionRef, owner_name: Seq<char>, owner_kind: CadQueryObjectKind)
    requires
        s.owner_ref_text matches Some(t) && object_ref_name(t@) == Some(owner_name),
        s.owner_object_kind == Some(owner_kind),
    ensures
        selection_path(s) == Some(kind_root(owner_kind) + "/"@ + owner_name + ".py"@),
        owner_kind == CadQueryObjectKind::Part ==> selection_path(s) == Some("parts/"@ + owner_name + ".py"@),
        owner_kind == CadQueryObjectKind::Component ==> selection_path(s) == Some("components/"@ + owner_name + ".py"@),
        owner_kind == CadQueryObjectKind::Assembly ==> selection_path(s) == Some("assemblies/"@ + owner_name + ".py"@),
{
    lemma_root_slash();
}

} // verus!
