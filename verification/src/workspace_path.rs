//! Workspace-relative path rules: normalization, roots and model paths.
//!
//! A workspace path is text split on `'/'`. Normalization rejects absolute
//! paths, drive-like paths and parent segments, and drops empty and `.`
//! segments.
use vstd::prelude::*;
use crate::text::{
    contains, ends_with, eq_lit, join, join_exec, lemma_split_nonempty,
    lemma_split_pieces_free, lower_exec, lower_seq, occurs_at, replace_char, replace_char_exec,
    slice_vec, split, split_exec, trim, trim_exec, views, contains_lit, ends_with_lit,
};

verus! {

/// Why a path was rejected as a workspace path.
#[derive(Debug, Clone, Copy, PartialEq, Eq)]
pub enum PathRejection {
    /// The path is absolute or names a drive (`':'`).
    NotWorkspaceRelative,
    /// A segment is `..`.
    ParentSegment,
}

pub open spec fn dot() -> Seq<char> {
    seq!['.']
}

pub open spec fn dot_dot() -> Seq<char> {
    seq!['.', '.']
}

/// A segment that normalization keeps.
pub open spec fn keep_segment(seg: Seq<char>) -> bool {
    seg.len() > 0 && seg != dot()
}

/// The segments that normalization keeps, in order.
pub open spec fn kept(segs: Seq<Seq<char>>) -> Seq<Seq<char>>
    decreases segs.len(),
{
    if segs.len() == 0 {
        segs
    } else if keep_segment(segs.last()) {
        kept(segs.drop_last()).push(segs.last())
    } else {
        kept(segs.drop_last())
    }
}

pub open spec fn has_parent_segment(segs: Seq<Seq<char>>) -> bool {
    exists|k: int| 0 <= k < segs.len() && segs[k] == dot_dot()
}

/// Normalization of a path whose backslashes are already slashes.
pub open spec fn normalize_cleaned(cleaned: Seq<char>, reject_empty: bool) -> Result<
    Seq<char>,
    PathRejection,
> {
    if (reject_empty && cleaned.len() == 0) || (cleaned.len() > 0 && cleaned[0] == '/') || contains(
        cleaned,
        seq![':'],
    ) {
        Err(PathRejection::NotWorkspaceRelative)
    } else if has_parent_segment(split(cleaned, '/')) {
        Err(PathRejection::ParentSegment)
    } else {
        Ok(join(kept(split(cleaned, '/')), '/'))
    }
}

/// Normalization as the tool layer does it: backslashes become slashes.
pub open spec fn normalize_path(path: Seq<char>) -> Result<Seq<char>, PathRejection> {
    normalize_cleaned(replace_char(path, '\\', '/'), false)
}

/// Normalization as plan packages do it: the path is trimmed first, and an
/// empty path is rejected.
pub open spec fn normalize_trimmed_path(path: Seq<char>) -> Result<Seq<char>, PathRejection> {
    normalize_cleaned(replace_char(trim(path), '\\', '/'), true)
}

/// The first non-empty segment, or empty text.
pub open spec fn first_nonempty(segs: Seq<Seq<char>>) -> Seq<char>
    decreases segs.len(),
{
    if segs.len() == 0 {
        Seq::<char>::empty()
    } else if segs[0].len() > 0 {
        segs[0]
    } else {
        first_nonempty(segs.drop_first())
    }
}

/// The first non-empty segment of a path, or empty text.
pub open spec fn first_segment(path: Seq<char>) -> Seq<char> {
    first_nonempty(split(path, '/'))
}

/// The text before the first `'/'` (possibly empty).
pub open spec fn first_piece(path: Seq<char>) -> Seq<char> {
    split(path, '/')[0]
}

pub open spec fn is_model_root(seg: Seq<char>) -> bool {
    seg == "components"@ || seg == "parts"@ || seg == "assemblies"@
}

/// A CadQuery model source: under a model root, ending in `.py`.
pub open spec fn is_cadquery_model_path(path: Seq<char>) -> bool {
    is_model_root(first_segment(path)) && ends_with(path, ".py"@)
}

/// The same test on the first piece rather than the first non-empty segment.
pub open spec fn is_model_path_by_first_piece(path: Seq<char>) -> bool {
    is_model_root(first_piece(path)) && ends_with(path, ".py"@)
}

/// The last kept segment of a path, unless it is `..`.
pub open spec fn file_name(path: Seq<char>) -> Option<Seq<char>> {
    let k = kept(split(path, '/'));
    if k.len() == 0 || k.last() == dot_dot() {
        None
    } else {
        Some(k.last())
    }
}

/// The last position of `c` in `s`.
pub open spec fn last_index_of_char(s: Seq<char>, c: char) -> Option<int> {
    if exists|i: int| 0 <= i < s.len() && s[i] == c {
        Some(choose|i: int| 0 <= i < s.len() && s[i] == c && forall|j: int| i < j < s.len() ==> s[j] != c)
    } else {
        None
    }
}

/// The stem of a file name: before its last dot, unless the only dot leads.
pub open spec fn name_stem(name: Seq<char>) -> Seq<char> {
    match last_index_of_char(name, '.') {
        Some(i) => if i == 0 {
            name
        } else {
            name.subrange(0, i)
        },
        None => name,
    }
}

/// `Path::file_stem` on a slash-separated relative path.
pub open spec fn file_stem(path: Seq<char>) -> Option<Seq<char>> {
    match file_name(path) {
        Some(n) => Some(name_stem(n)),
        None => None,
    }
}

/// `path` ends with `.step`, `.stl` or `.3mf`, ignoring ASCII case.
pub open spec fn supported_export_extension(path: Seq<char>) -> bool {
    let lower = lower_seq(path);
    ends_with(lower, ".step"@) || ends_with(lower, ".stl"@) || ends_with(lower, ".3mf"@)
}

// ---------------------------------------------------------------------------
// Proofs about splitting and joining

pub proof fn lemma_split_push_sep(s: Seq<char>, d: char)
    ensures
        split(s.push(d), d) == split(s, d).push(Seq::<char>::empty()),
{
    assert(s.push(d).drop_last() == s);
}

/// Appending text without the separator extends the last piece.
pub proof fn lemma_split_append_free(s: Seq<char>, b: Seq<char>, d: char)
    requires
        forall|j: int| 0 <= j < b.len() ==> b[j] != d,
    ensures
        split(s + b, d) == split(s, d).update(split(s, d).len() - 1, split(s, d).last() + b),
    decreases b.len(),
{
    lemma_split_nonempty(s, d);
    if b.len() == 0 {
        assert(s + b == s);
        assert(split(s, d).last() + b == split(s, d).last());
        assert(split(s, d).update(split(s, d).len() - 1, split(s, d).last()) =~= split(s, d));
    } else {
        let b0 = b.drop_last();
        lemma_split_append_free(s, b0, d);
        assert((s + b).drop_last() == s + b0);
        assert((s + b).last() == b.last());
        lemma_split_nonempty(s + b0, d);
        let p = split(s, d);
        let q = split(s + b0, d);
        assert(q == p.update(p.len() - 1, p.last() + b0));
        assert(q.len() == p.len());
        assert(q.last() == p.last() + b0);
        assert(split(s + b, d) == q.update(q.len() - 1, q.last().push(b.last())));
        assert((p.last() + b0).push(b.last()) =~= p.last() + b);
        assert(split(s + b, d) =~= p.update(p.len() - 1, p.last() + b));
    }
}

pub proof fn lemma_join_char(segs: Seq<Seq<char>>, d: char, j: int)
    requires
        0 <= j < join(segs, d).len(),
    ensures
        join(segs, d)[j] == d || exists|k: int, m: int|
            #![trigger segs[k][m]]
            0 <= k < segs.len() && 0 <= m < segs[k].len() && join(segs, d)[j] == segs[k][m],
    decreases segs.len(),
{
    if segs.len() == 1 {
        assert(join(segs, d)[j] == segs[0][j]);
    } else if segs.len() > 1 {
        let a = join(segs.drop_last(), d).push(d);
        if j < a.len() - 1 {
            lemma_join_char(segs.drop_last(), d, j);
            let w = join(segs, d)[j];
            if w != d {
                let (k, m) = choose|k: int, m: int|
                    0 <= k < segs.drop_last().len() && 0 <= m < segs.drop_last()[k].len() && w
                        == segs.drop_last()[k][m];
                assert(segs[k] == segs.drop_last()[k]);
            }
        } else if j == a.len() - 1 {
        } else {
            assert(join(segs, d)[j] == segs.last()[j - a.len()]);
            assert(segs.last() == segs[segs.len() - 1]);
        }
    }
}

/// Splitting a join of non-empty-free pieces gives the pieces back.
pub proof fn lemma_split_join(segs: Seq<Seq<char>>, d: char)
    requires
        segs.len() > 0,
        forall|k: int, m: int| 0 <= k < segs.len() && 0 <= m < segs[k].len() ==> segs[k][m] != d,
    ensures
        split(join(segs, d), d) == segs,
    decreases segs.len(),
{
    if segs.len() == 1 {
        lemma_split_append_free(Seq::<char>::empty(), segs[0], d);
        assert(Seq::<char>::empty() + segs[0] == segs[0]);
        assert(split(Seq::<char>::empty(), d) == seq![Seq::<char>::empty()]);
        assert(Seq::<char>::empty() + segs[0] == segs[0]);
        assert(split(segs[0], d) =~= segs);
    } else {
        let dl = segs.drop_last();
        lemma_split_join(dl, d);
        let a = join(dl, d).push(d);
        lemma_split_push_sep(join(dl, d), d);
        assert forall|m: int| 0 <= m < segs.last().len() implies segs.last()[m] != d by {
            assert(segs[segs.len() - 1] == segs.last());
        }
        lemma_split_append_free(a, segs.last(), d);
        assert(Seq::<char>::empty() + segs.last() == segs.last());
        assert(split(join(segs, d), d) =~= segs);
    }
}

pub proof fn lemma_kept_props(segs: Seq<Seq<char>>)
    ensures
        forall|k: int| 0 <= k < kept(segs).len() ==> keep_segment(#[trigger] kept(segs)[k]),
        forall|k: int|
            #![trigger kept(segs)[k]]
            0 <= k < kept(segs).len() ==> exists|j: int| 0 <= j < segs.len() && segs[j] == kept(segs)[k],
        kept(kept(segs)) == kept(segs),
    decreases segs.len(),
{
    if segs.len() > 0 {
        lemma_kept_props(segs.drop_last());
        let r = kept(segs.drop_last());
        if keep_segment(segs.last()) {
            assert forall|k: int|
                #![trigger kept(segs)[k]]
                0 <= k < kept(segs).len() implies exists|j: int| 0 <= j < segs.len() && segs[j] == kept(segs)[k] by {
                if k < r.len() {
                    let j = choose|j: int| 0 <= j < segs.drop_last().len() && segs.drop_last()[j] == r[k];
                    assert(segs[j] == segs.drop_last()[j]);
                } else {
                    assert(segs[segs.len() - 1] == kept(segs)[k]);
                }
            }
            assert(kept(segs).drop_last() == r);
        } else {
            assert forall|k: int|
                #![trigger kept(segs)[k]]
                0 <= k < kept(segs).len() implies exists|j: int| 0 <= j < segs.len() && segs[j] == kept(segs)[k] by {
                let j = choose|j: int| 0 <= j < segs.drop_last().len() && segs.drop_last()[j] == r[k];
                assert(segs[j] == segs.drop_last()[j]);
            }
        }
    }
}

/// A text's split pieces hold only characters of the text.
pub proof fn lemma_split_chars(s: Seq<char>, d: char)
    ensures
        forall|k: int, m: int|
            #![trigger split(s, d)[k][m]]
            0 <= k < split(s, d).len() && 0 <= m < split(s, d)[k].len() ==> exists|j: int|
                0 <= j < s.len() && s[j] == split(s, d)[k][m],
    decreases s.len(),
{
    lemma_split_nonempty(s, d);
    if s.len() > 0 {
        lemma_split_chars(s.drop_last(), d);
        lemma_split_nonempty(s.drop_last(), d);
        let p = split(s.drop_last(), d);
        assert forall|k: int, m: int|
            #![trigger split(s, d)[k][m]]
            0 <= k < split(s, d).len() && 0 <= m < split(s, d)[k].len() implies exists|j: int|
            0 <= j < s.len() && s[j] == split(s, d)[k][m] by {
            let w = split(s, d)[k][m];
            if s.last() == d {
                if k < p.len() {
                    assert(split(s, d)[k] == p[k]);
                    let j = choose|j: int| 0 <= j < s.drop_last().len() && s.drop_last()[j] == p[k][m];
                    assert(s[j] == s.drop_last()[j]);
                }
            } else {
                if k == p.len() - 1 && m == p.last().len() {
                    assert(w == s.last());
                    assert(s[s.len() - 1] == w);
                } else {
                    assert(w == p[k][m]);
                    let j = choose|j: int| 0 <= j < s.drop_last().len() && s.drop_last()[j] == p[k][m];
                    assert(s[j] == s.drop_last()[j]);
                }
            }
        }
    }
}

pub proof fn lemma_kept_no_parent(segs: Seq<Seq<char>>)
    requires
        !has_parent_segment(segs),
    ensures
        !has_parent_segment(kept(segs)),
{
    lemma_kept_props(segs);
    if has_parent_segment(kept(segs)) {
        let k = choose|k: int| 0 <= k < kept(segs).len() && kept(segs)[k] == dot_dot();
        let j = choose|j: int| 0 <= j < segs.len() && segs[j] == kept(segs)[k];
        assert(segs[j] == dot_dot());
    }
}

/// What a normalized path is made of.
pub open spec fn is_normal_path(r: Seq<char>) -> bool {
    &&& !(r.len() > 0 && r[0] == '/')
    &&& !contains(r, seq![':'])
    &&& forall|j: int| 0 <= j < r.len() ==> r[j] != '\\'
    &&& r.len() > 0 ==> forall|k: int|
        0 <= k < split(r, '/').len() ==> keep_segment(#[trigger] split(r, '/')[k]) && split(r, '/')[k]
            != dot_dot()
}

/// Normalization yields text with no leading slash, no drive colon, no
/// backslash, and segments that are all non-empty and neither `.` nor `..`.
/// Normalizing that text again gives it back unchanged.
pub proof fn lemma_normalize_cleaned_sound(cleaned: Seq<char>, reject_empty: bool)
    requires
        forall|j: int| 0 <= j < cleaned.len() ==> cleaned[j] != '\\',
        normalize_cleaned(cleaned, reject_empty) is Ok,
    ensures
        is_normal_path(normalize_cleaned(cleaned, reject_empty)->Ok_0),
        normalize_cleaned(normalize_cleaned(cleaned, reject_empty)->Ok_0, false) == normalize_cleaned(
            cleaned,
            reject_empty,
        ),
{
    let segs = split(cleaned, '/');
    let k = kept(segs);
    let r = join(k, '/');
    lemma_kept_props(segs);
    lemma_split_pieces_free(cleaned, '/');
    lemma_split_chars(cleaned, '/');
    lemma_kept_no_parent(segs);
    // every character of r is '/' or a character of cleaned
    assert forall|j: int| #![trigger r[j]] 0 <= j < r.len() implies r[j] == '/' || exists|i: int|
        0 <= i < cleaned.len() && cleaned[i] == r[j] by {
        lemma_join_char(k, '/', j);
        if r[j] != '/' {
            let (a, m) = choose|a: int, m: int| 0 <= a < k.len() && 0 <= m < k[a].len() && r[j] == k[a][m];
            let b = choose|b: int| 0 <= b < segs.len() && segs[b] == k[a];
            assert(segs[b][m] == r[j]);
        }
    }
    assert forall|j: int| 0 <= j < r.len() implies r[j] != '\\' && r[j] != ':' by {
        if r[j] != '/' {
            let i = choose|i: int| 0 <= i < cleaned.len() && cleaned[i] == r[j];
            if r[j] == ':' {
                assert(occurs_at(cleaned, seq![':'], i)) by {
                    assert(cleaned.subrange(i, i + 1) =~= seq![':']);
                }
            }
        }
    }
    assert(!contains(r, seq![':'])) by {
        if contains(r, seq![':']) {
            let i = choose|i: int| occurs_at(r, seq![':'], i);
            assert(r.subrange(i, i + 1)[0] == r[i]);
        }
    }
    assert forall|a: int, m: int| 0 <= a < k.len() && 0 <= m < k[a].len() implies k[a][m] != '/' by {
        let b = choose|b: int| 0 <= b < segs.len() && segs[b] == k[a];
        assert(segs[b][m] == k[a][m]);
    }
    if k.len() > 0 {
        lemma_split_join(k, '/');
        assert(r.len() > 0 ==> r[0] != '/') by {
            if r.len() > 0 {
                lemma_join_first(k, '/');
            }
        }
        assert(kept(split(r, '/')) == k);
    } else {
        assert(r == Seq::<char>::empty());
        assert(split(r, '/') == seq![Seq::<char>::empty()]);
        assert(kept(split(r, '/')) =~= k) by {
            let sr = split(r, '/');
            assert(sr.len() == 1);
            assert(sr.last().len() == 0);
            assert(sr.drop_last() =~= Seq::<Seq<char>>::empty());
            assert(kept(Seq::<Seq<char>>::empty()) == Seq::<Seq<char>>::empty());
        }
        assert(!has_parent_segment(split(r, '/')));
    }
}

pub proof fn lemma_join_first(segs: Seq<Seq<char>>, d: char)
    requires
        segs.len() > 0,
        segs[0].len() > 0,
    ensures
        join(segs, d).len() > 0,
        join(segs, d)[0] == segs[0][0],
    decreases segs.len(),
{
    if segs.len() > 1 {
        lemma_join_first(segs.drop_last(), d);
        assert(segs.drop_last()[0] == segs[0]);
    }
}

pub proof fn lemma_replace_backslash_free(s: Seq<char>)
    ensures
        forall|j: int| 0 <= j < replace_char(s, '\\', '/').len() ==> replace_char(s, '\\', '/')[j] != '\\',
{
}

pub proof fn lemma_replace_identity(s: Seq<char>)
    requires
        forall|j: int| 0 <= j < s.len() ==> s[j] != '\\',
    ensures
        replace_char(s, '\\', '/') == s,
{
    assert(replace_char(s, '\\', '/') =~= s);
}

/// A normalized workspace path is a fixed point: normalizing it again gives
/// it back unchanged. Its first character is no slash, it holds no `':'` and
/// no backslash, and each of its segments is non-empty and neither `.` nor `..`.
pub proof fn law_normalize_path_idempotent(path: Seq<char>)
    requires
        normalize_path(path) is Ok,
    ensures
        is_normal_path(normalize_path(path)->Ok_0),
        normalize_path(normalize_path(path)->Ok_0) == normalize_path(path),
{
    let cleaned = replace_char(path, '\\', '/');
    lemma_replace_backslash_free(path);
    lemma_normalize_cleaned_sound(cleaned, false);
    let r = normalize_path(path)->Ok_0;
    lemma_replace_identity(r);
}

/// For the trimming variant used by plan packages, a normalized path is a
/// fixed point whenever it is non-empty and has no white space at its ends.
pub proof fn law_normalize_trimmed_path_idempotent(path: Seq<char>)
    requires
        normalize_trimmed_path(path) is Ok,
        normalize_trimmed_path(path)->Ok_0.len() > 0,
        trim(normalize_trimmed_path(path)->Ok_0) == normalize_trimmed_path(path)->Ok_0,
    ensures
        is_normal_path(normalize_trimmed_path(path)->Ok_0),
        normalize_trimmed_path(normalize_trimmed_path(path)->Ok_0) == normalize_trimmed_path(path),
{
    let cleaned = replace_char(trim(path), '\\', '/');
    lemma_replace_backslash_free(trim(path));
    lemma_normalize_cleaned_sound(cleaned, true);
    let r = normalize_trimmed_path(path)->Ok_0;
    lemma_replace_identity(r);
}

// ---------------------------------------------------------------------------
// Executable rules

pub open spec fn rejection_or(r: Result<Vec<char>, PathRejection>) -> Result<Seq<char>, PathRejection> {
    match r {
        Ok(v) => Ok(v@),
        Err(e) => Err(e),
    }
}

/// The segments that normalization keeps.
pub fn kept_exec(segs: &Vec<Vec<char>>) -> (r: Vec<Vec<char>>)
    ensures
        views(r@) == kept(views(segs@)),
{
    let mut r: Vec<Vec<char>> = Vec::new();
    let mut i: usize = 0;
    proof {
        assert(views(segs@).take(0) =~= Seq::<Seq<char>>::empty());
    }
    while i < segs.len()
        invariant
            i <= segs.len(),
            views(r@) == kept(views(segs@).take(i as int)),
        decreases segs.len() - i,
    {
        proof {
            assert(views(segs@).take(i + 1).drop_last() =~= views(segs@).take(i as int));
            assert(views(segs@).take(i + 1).last() == segs@[i as int]@);
        }
        let keep = segs[i].len() > 0 && !eq_lit(segs[i].as_slice(), ".");
        proof {
            reveal_strlit(".");
            assert("."@ =~= dot());
        }
        if keep {
            let s = slice_vec(segs[i].as_slice(), 0, segs[i].len());
            let ghost before = views(r@);
            r.push(s);
            proof {
                assert(segs@[i as int]@.subrange(0, segs@[i as int]@.len() as int) =~= segs@[i as int]@);
                assert(views(r@) =~= before.push(s@));
            }
        }
        i = i + 1;
    }
    proof {
        assert(views(segs@).take(segs@.len() as int) =~= views(segs@));
    }
    r
}

/// Whether a segment is `..`.
fn has_parent_exec(segs: &Vec<Vec<char>>) -> (r: bool)
    ensures
        r == has_parent_segment(views(segs@)),
{
    let mut i: usize = 0;
    proof {
        reveal_strlit("..");
        assert(".."@ =~= dot_dot());
    }
    while i < segs.len()
        invariant
            i <= segs.len(),
            ".."@ == dot_dot(),
            forall|j: int| 0 <= j < i ==> views(segs@)[j] != dot_dot(),
        decreases segs.len() - i,
    {
        if eq_lit(segs[i].as_slice(), "..") {
            proof {
                assert(views(segs@)[i as int] == segs@[i as int]@);
            }
            return true;
        }
        i = i + 1;
    }
    false
}

/// Normalizes a path whose backslashes are already slashes.
pub fn normalize_cleaned_exec(cleaned: &[char], reject_empty: bool) -> (r: Result<
    Vec<char>,
    PathRejection,
>)
    ensures
        rejection_or(r) == normalize_cleaned(cleaned@, reject_empty),
{
    proof {
        reveal_strlit(":");
        assert(":"@ =~= seq![':']);
    }
    if (reject_empty && cleaned.len() == 0) || (cleaned.len() > 0 && cleaned[0] == '/')
        || contains_lit(cleaned, ":") {
        return Err(PathRejection::NotWorkspaceRelative);
    }
    let segs = split_exec(cleaned, '/');
    if has_parent_exec(&segs) {
        return Err(PathRejection::ParentSegment);
    }
    let k = kept_exec(&segs);
    Ok(join_exec(&k, '/'))
}

/// Normalizes a workspace path: backslashes become slashes, absolute and
/// drive paths and `..` segments are rejected, empty and `.` segments dropped.
pub fn normalize_path_exec(path: &[char]) -> (r: Result<Vec<char>, PathRejection>)
    ensures
        rejection_or(r) == normalize_path(path@),
{
    let cleaned = replace_char_exec(path, '\\', '/');
    normalize_cleaned_exec(&cleaned, false)
}

/// Normalizes a workspace path after trimming it; empty paths are rejected.
pub fn normalize_trimmed_path_exec(path: &[char]) -> (r: Result<Vec<char>, PathRejection>)
    ensures
        rejection_or(r) == normalize_trimmed_path(path@),
{
    let t = trim_exec(path);
    let cleaned = replace_char_exec(&t, '\\', '/');
    normalize_cleaned_exec(&cleaned, true)
}

/// The first non-empty segment of a path.
pub fn first_segment_exec(path: &[char]) -> (r: Vec<char>)
    ensures
        r@ == first_segment(path@),
{
    let segs = split_exec(path, '/');
    let mut i: usize = 0;
    proof {
        assert(views(segs@).subrange(0, segs@.len() as int) =~= views(segs@));
    }
    while i < segs.len()
        invariant
            i <= segs.len(),
            views(segs@) == split(path@, '/'),
            first_nonempty(views(segs@)) == first_nonempty(views(segs@).subrange(i as int, segs@.len() as int)),
        decreases segs.len() - i,
    {
        let ghost rest = views(segs@).subrange(i as int, segs@.len() as int);
        proof {
            assert(rest.drop_first() =~= views(segs@).subrange(i + 1, segs@.len() as int));
            assert(rest[0] == segs@[i as int]@);
        }
        if segs[i].len() > 0 {
            proof {
                assert(segs@[i as int]@.subrange(0, segs@[i as int]@.len() as int) =~= segs@[i as int]@);
                assert(rest.len() > 0);
                assert(first_nonempty(rest) == rest[0]);
            }
            return slice_vec(segs[i].as_slice(), 0, segs[i].len());
        }
        i = i + 1;
    }
    proof {
        assert(views(segs@).subrange(i as int, segs@.len() as int) =~= Seq::<Seq<char>>::empty());
    }
    Vec::new()
}

/// The text before the first `'/'`.
pub fn first_piece_exec(path: &[char]) -> (r: Vec<char>)
    ensures
        r@ == first_piece(path@),
{
    let segs = split_exec(path, '/');
    proof {
        lemma_split_nonempty(path@, '/');
        assert(views(segs@)[0] == segs@[0]@);
    }
    slice_vec(segs[0].as_slice(), 0, segs[0].len())
}

/// Whether a segment is `components`, `parts` or `assemblies`.
pub fn is_model_root_exec(seg: &[char]) -> (r: bool)
    ensures
        r == is_model_root(seg@),
{
    eq_lit(seg, "components") || eq_lit(seg, "parts") || eq_lit(seg, "assemblies")
}

/// Whether a path is a CadQuery model source.
pub fn is_cadquery_model_path_exec(path: &[char]) -> (r: bool)
    ensures
        r == is_cadquery_model_path(path@),
{
    let first = first_segment_exec(path);
    is_model_root_exec(&first) && ends_with_lit(path, ".py")
}

/// Whether a path is a CadQuery model source, judged on its first piece.
pub fn is_model_path_by_first_piece_exec(path: &[char]) -> (r: bool)
    ensures
        r == is_model_path_by_first_piece(path@),
{
    let first = first_piece_exec(path);
    is_model_root_exec(&first) && ends_with_lit(path, ".py")
}

/// The last position of `c` in `s`.
pub fn last_index_of_char_exec(s: &[char], c: char) -> (r: Option<usize>)
    ensures
        match r {
            Some(i) => last_index_of_char(s@, c) == Some(i as int) && i < s@.len(),
            None => last_index_of_char(s@, c) is None,
        },
{
    let mut i: usize = s.len();
    while i > 0
        invariant
            i <= s.len(),
            forall|j: int| i <= j < s.len() ==> s@[j] != c,
        decreases i,
    {
        if s[i - 1] == c {
            proof {
                let k = choose|k: int| 0 <= k < s@.len() && s@[k] == c && forall|j: int| k < j < s@.len() ==> s@[j] != c;
                assert(0 <= i - 1 < s@.len() && s@[i - 1] == c && forall|j: int| i - 1 < j < s@.len() ==> s@[j] != c);
                if k < i - 1 {} else if k > i - 1 {}
            }
            return Some(i - 1);
        }
        i = i - 1;
    }
    None
}

/// The stem of a path's file name.
pub fn file_stem_exec(path: &[char]) -> (r: Option<Vec<char>>)
    ensures
        match r {
            Some(v) => file_stem(path@) == Some(v@),
            None => file_stem(path@) is None,
        },
{
    let segs = split_exec(path, '/');
    let k = kept_exec(&segs);
    if k.len() == 0 {
        return None;
    }
    let last = &k[k.len() - 1];
    proof {
        assert(views(k@).last() == last@);
        reveal_strlit("..");
        assert(".."@ =~= dot_dot());
    }
    if eq_lit(last.as_slice(), "..") {
        return None;
    }
    let found = last_index_of_char_exec(last.as_slice(), '.');
    match found {
        Some(i) => {
            if i == 0 {
                Some(slice_vec(last.as_slice(), 0, last.len()))
            } else {
                Some(slice_vec(last.as_slice(), 0, i))
            }
        },
        None => Some(slice_vec(last.as_slice(), 0, last.len())),
    }
}

/// Whether `path` ends in `.step`, `.stl` or `.3mf`, ignoring ASCII case.
pub fn supported_export_extension_exec(path: &[char]) -> (r: bool)
    ensures
        r == supported_export_extension(path@),
{
    let lower = lower_exec(path);
    ends_with_lit(&lower, ".step") || ends_with_lit(&lower, ".stl") || ends_with_lit(&lower, ".3mf")
}

} // verus!
