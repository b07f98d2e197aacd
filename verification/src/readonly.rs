//! The read-only tools (`read_file`, `list_directory`, `search_files`):
//! which workspace paths they may read, how a read is cut to a byte window
//! on character boundaries, how a listing is collected, filtered and
//! ordered, and which lines a search reports.
use vstd::prelude::*;
use crate::plan_package::string_views;
use crate::scope::opt_string;
use crate::sorted::{text_lt, text_lt_exec, lemma_text_lt_transitive, lemma_text_lt_total, lemma_text_lt_irreflexive};
use crate::text::{chars_of, contains, contains_exec, eq_lit, join, join_exec, lines, lines_exec, slice_vec, string_of, surround, views};
use crate::json_args::{field_text, field_view, fields_view, json_fields, keys_view, read_fields, take_flag, take_unsigned, copy_text_of};
use crate::tool_policy::{
    ToolPolicyError, denied, invalid, invalid_args_error, invalid_args_exec, normalized, rejection_message, text_result,
};
use crate::watch::{path_components, path_components_exec};
use crate::web_search::{byte_len, char_width, lemma_byte_len_step};
use crate::workspace_path::{first_segment, first_segment_exec, normalize_path, normalize_path_exec, PathRejection};

verus! {

/// The most bytes `read_file` returns.
pub const MAX_FILE_READ_BYTES: usize = 65536;

/// The most entries `list_directory` returns.
pub const MAX_DIR_ENTRIES: usize = 500;

/// The largest file `search_files` reads.
pub const MAX_SEARCH_FILE_BYTES: usize = 262144;

/// The most matches `search_files` returns.
pub const MAX_SEARCH_RESULTS: usize = 50;

/// Roots the read-only tools never read.
pub open spec fn readonly_denied_root(root: Seq<char>) -> bool {
    root == ".git"@ || root == "target"@ || root == "node_modules"@ || root == "outputs"@ || root
        == ".budn_staging"@
}

pub open spec fn denied_path(relative: Seq<char>) -> bool {
    readonly_denied_root(first_segment(relative))
}

/// Whether a workspace-relative path lies under a denied root.
pub fn is_denied_path(relative: &str) -> (r: bool)
    ensures
        r == denied_path(relative@),
{
    let root = first_segment_exec(&chars_of(relative));
    eq_lit(&root, ".git") || eq_lit(&root, "target") || eq_lit(&root, "node_modules") || eq_lit(&root, "outputs")
        || eq_lit(&root, ".budn_staging")
}

/// `any` matches every kind.
pub fn matches_kind_text(entry_kind: &str, kind: &str) -> (r: bool)
    ensures
        r == (kind@ == "any"@ || entry_kind@ == kind@),
{
    let k = chars_of(kind);
    eq_lit(&k, "any") || crate::text::seq_eq(&chars_of(entry_kind), &k)
}

pub open spec fn pattern_matches(path: Seq<char>, pattern: Option<Seq<char>>) -> bool {
    match pattern {
        None => true,
        Some(p) => contains(path, p),
    }
}

/// No pattern, or the path contains it.
pub fn matches_pattern(path: &str, pattern: &Option<String>) -> (r: bool)
    ensures
        r == pattern_matches(path@, opt_string(*pattern)),
{
    match pattern {
        None => true,
        Some(p) => contains_exec(&chars_of(path), &chars_of(p.as_str())),
    }
}

/// A byte that text files do not hold: NUL or a control byte other than
/// line feed, carriage return and tab.
pub open spec fn binary_byte(b: u8) -> bool {
    b == 0 || (b < 0x20 && b != 10 && b != 13 && b != 9)
}

pub open spec fn probably_binary(bytes: Seq<u8>) -> bool {
    exists|i: int| 0 <= i < bytes.len() && binary_byte(#[trigger] bytes[i])
}

pub fn is_probably_binary(bytes: &[u8]) -> (r: bool)
    ensures
        r == probably_binary(bytes@),
{
    let mut i: usize = 0;
    while i < bytes.len()
        invariant
            i <= bytes.len(),
            forall|j: int| 0 <= j < i ==> !binary_byte(#[trigger] bytes@[j]),
        decreases bytes.len() - i,
    {
        let b = bytes[i];
        if b == 0 || (b < 0x20 && b != 10 && b != 13 && b != 9) {
            proof {
                assert(binary_byte(bytes@[i as int]));
            }
            return true;
        }
        i = i + 1;
    }
    false
}

/// A file that `search_files` reads: no binary bytes and small enough.
pub fn is_searchable_bytes(bytes: &[u8]) -> (r: bool)
    ensures
        r == (!probably_binary(bytes@) && bytes@.len() <= MAX_SEARCH_FILE_BYTES),
{
    !is_probably_binary(bytes) && bytes.len() <= MAX_SEARCH_FILE_BYTES
}

/// A numeric argument that fits, else the default, at most the cap.
pub open spec fn limit_of(value: Option<u64>, default: usize, cap: usize) -> usize {
    let v = match value {
        Some(n) => if n <= usize::MAX {
            n as usize
        } else {
            default
        },
        None => default,
    };
    if v < cap {
        v
    } else {
        cap
    }
}

pub fn limit_arg(value: Option<u64>, default: usize, cap: usize) -> (r: usize)
    ensures
        r == limit_of(value, default, cap),
{
    let v = match value {
        Some(n) => if n as u128 <= usize::MAX as u128 {
            n as usize
        } else {
            default
        },
        None => default,
    };
    if v < cap {
        v
    } else {
        cap
    }
}

// ---------------------------------------------------------------------------
// Paths

/// A path as the read-only tools take it: normalized, outside denied roots.
pub open spec fn readable_path(relative: Seq<char>) -> Result<Seq<char>, (Seq<char>, Seq<char>)> {
    match normalized(relative) {
        Err(e) => Err(e),
        Ok(p) => if denied_path(p) {
            Err(denied("path root '"@ + first_segment(p) + "' is denied for this tool"@))
        } else {
            Ok(p)
        },
    }
}

/// The normalized path a read-only tool resolves, before it looks at disk.
pub fn readable_relative_path(relative: &str) -> (r: Result<Vec<char>, ToolPolicyError>)
    ensures
        text_result(r) == readable_path(relative@),
{
    let p = match normalize_path_exec(&chars_of(relative)) {
        Ok(p) => p,
        Err(e) => {
            let m = match e {
                PathRejection::NotWorkspaceRelative => "path must be workspace-relative",
                PathRejection::ParentSegment => "path must not contain '..'",
            };
            return Err(ToolPolicyError { message: m.to_owned(), error_type: "permission_denied" });
        },
    };
    let root = first_segment_exec(&p);
    if is_denied_path(string_of(&p).as_str()) {
        let m = surround("path root '", &root, "' is denied for this tool");
        return Err(ToolPolicyError { message: string_of(&m), error_type: "permission_denied" });
    }
    Ok(p)
}

/// The path below a root, component-wise, joined with `/`.
pub open spec fn relative_below(root: Seq<char>, path: Seq<char>) -> Option<Seq<char>> {
    let r = path_components(root);
    let c = path_components(path);
    if r.len() <= c.len() && c.subrange(0, r.len() as int) == r {
        Some(join(c.subrange(r.len() as int, c.len() as int), '/'))
    } else {
        None
    }
}

/// The workspace-relative path of a path, when it lies in the workspace.
pub fn workspace_relative_path(workspace_root: &str, path: &str) -> (r: Option<String>)
    ensures
        match r {
            Some(s) => relative_below(workspace_root@, path@) == Some(s@),
            None => relative_below(workspace_root@, path@) is None,
        },
{
    let r = path_components_exec(&chars_of(workspace_root));
    let c = path_components_exec(&chars_of(path));
    if r.len() > c.len() {
        return None;
    }
    let mut i: usize = 0;
    while i < r.len()
        invariant
            r.len() <= c.len(),
            i <= r.len(),
            views(r@) == path_components(workspace_root@),
            views(c@) == path_components(path@),
            forall|j: int| 0 <= j < i ==> views(c@)[j] == views(r@)[j],
        decreases r.len() - i,
    {
        if !crate::text::seq_eq(&c[i], &r[i]) {
            proof {
                assert(views(c@).subrange(0, views(r@).len() as int)[i as int] != views(r@)[i as int]);
            }
            return None;
        }
        i = i + 1;
    }
    proof {
        assert(views(c@).subrange(0, views(r@).len() as int) =~= views(r@));
    }
    let mut rest: Vec<Vec<char>> = Vec::new();
    let mut k: usize = r.len();
    while k < c.len()
        invariant
            r.len() <= k <= c.len(),
            views(rest@) == views(c@).subrange(r.len() as int, k as int),
        decreases c.len() - k,
    {
        let ghost before = views(rest@);
        rest.push(slice_vec(&c[k], 0, c[k].len()));
        proof {
            assert(c@[k as int]@.subrange(0, c@[k as int]@.len() as int) =~= c@[k as int]@);
            assert(views(rest@) =~= before.push(views(c@)[k as int]));
            assert(views(c@).subrange(r.len() as int, k + 1) =~= views(c@).subrange(r.len() as int, k as int).push(
                views(c@)[k as int],
            ));
        }
        k = k + 1;
    }
    Some(string_of(&join_exec(&rest, '/')))
}

/// Where a resolved path lands: inside the workspace and outside denied
/// roots.
pub open spec fn resolved_path_check(root: Seq<char>, canonical: Seq<char>) -> Result<Seq<char>, (Seq<char>, Seq<char>)> {
    match relative_below(root, canonical) {
        None => Err(denied("path resolves outside workspace"@)),
        Some(rel) => if denied_path(rel) {
            Err(denied("path root '"@ + first_segment(rel) + "' is denied for this tool"@))
        } else {
            Ok(rel)
        },
    }
}

/// Checks where a path resolved to (its canonical form) before it is read.
pub fn check_resolved_path(workspace_root: &str, canonical: &str) -> (r: Result<Vec<char>, ToolPolicyError>)
    ensures
        text_result(r) == resolved_path_check(workspace_root@, canonical@),
{
    let rel = match workspace_relative_path(workspace_root, canonical) {
        None => return Err(ToolPolicyError { message: "path resolves outside workspace".to_owned(), error_type: "permission_denied" }),
        Some(rel) => rel,
    };
    let rc = chars_of(rel.as_str());
    if is_denied_path(rel.as_str()) {
        let root = first_segment_exec(&rc);
        let m = surround("path root '", &root, "' is denied for this tool");
        return Err(ToolPolicyError { message: string_of(&m), error_type: "permission_denied" });
    }
    Ok(rc)
}

// ---------------------------------------------------------------------------
// Reading a window of text

/// What `read_file` returns of a file.
#[derive(Debug, Clone, PartialEq, Eq)]
pub struct TextSlice {
    pub text: String,
    pub offset: usize,
    pub bytes_read: usize,
    pub truncated: bool,
    pub file_size: usize,
}

/// The window that starts at character `ks` and ends at character `ke`
/// is the one `read_file` returns: `ks` starts at the clamped offset, and
/// `ke` is the last boundary within `max_bytes` of it (and the file).
pub open spec fn window(text: Seq<char>, file_size: int, start: int, max_bytes: int, ks: int, ke: int) -> bool {
    let limit = if start + max_bytes < file_size {
        start + max_bytes
    } else {
        file_size
    };
    &&& 0 <= ks <= ke <= text.len()
    &&& byte_len(text.take(ks)) == start
    &&& byte_len(text.take(ke)) <= limit
    &&& ke < text.len() ==> byte_len(text.take(ke + 1)) > limit
}

/// The offset a read starts at: at most the file's size.
pub open spec fn clamped_offset(offset: int, file_size: int) -> int {
    if offset < file_size {
        offset
    } else {
        file_size
    }
}

/// A byte position is a character boundary of the text.
pub open spec fn is_boundary(text: Seq<char>, b: int) -> bool {
    exists|k: int| 0 <= k <= text.len() && byte_len(text.take(k)) == b
}

proof fn lemma_byte_len_mono(s: Seq<char>, a: int, b: int)
    requires
        0 <= a <= b <= s.len(),
    ensures
        byte_len(s.take(a)) <= byte_len(s.take(b)),
        a < b ==> byte_len(s.take(a)) < byte_len(s.take(b)),
    decreases b - a,
{
    if a < b {
        lemma_byte_len_step(s, b - 1);
        lemma_byte_len_mono(s, a, b - 1);
    }
}

/// The window of a text that `read_file` returns, or the refusal of an
/// offset inside a character.
pub fn text_slice(text: &str, file_size: usize, offset: usize, max_bytes: usize) -> (r: Result<
    TextSlice,
    ToolPolicyError,
>)
    requires
        file_size == byte_len(text@),
    ensures
        ({
            let start = clamped_offset(offset as int, file_size as int);
            match r {
                Err(e) => !is_boundary(text@, start) && e@ == invalid(
                    "offset must be on a UTF-8 character boundary"@,
                ),
                Ok(s) => exists|ks: int, ke: int|
                    #[trigger] window(text@, file_size as int, start, max_bytes as int, ks, ke) && s.text@ == text@.subrange(
                        ks,
                        ke,
                    ) && s.offset == start && s.bytes_read == byte_len(text@.take(ke)) - start && s.truncated
                        == (byte_len(text@.take(ke)) < file_size) && s.file_size == file_size,
            }
        }),
{
    let c = chars_of(text);
    let start: usize = if offset < file_size {
        offset
    } else {
        file_size
    };
    let limit: usize = if max_bytes < file_size - start {
        start + max_bytes
    } else {
        file_size
    };
    // Find the character that starts at `start`.
    let mut k: usize = 0;
    let mut pos: usize = 0;
    proof {
        assert(c@.take(0) =~= Seq::<char>::empty());
        assert(vstd::utf8::encode_utf8(Seq::<char>::empty()) =~= Seq::<u8>::empty());
        assert(c@.take(c@.len() as int) =~= c@);
    }
    while k < c.len() && pos < start
        invariant
            k <= c.len(),
            c@ == text@,
            pos == byte_len(c@.take(k as int)),
            pos <= file_size,
            file_size == byte_len(c@),
            forall|j: int| 0 <= j < k ==> byte_len(c@.take(j)) < start,
        decreases c.len() - k,
    {
        proof {
            lemma_byte_len_step(c@, k as int);
            lemma_byte_len_mono(c@, k + 1, c@.len() as int);
            assert(c@.take(c@.len() as int) =~= c@);
        }
        let w = crate::web_search::char_width_exec(c[k]);
        pos = pos + w;
        k = k + 1;
    }
    if pos != start {
        proof {
            assert forall|q: int| 0 <= q <= text@.len() implies byte_len(text@.take(q)) != start by {
                if q > k {
                    lemma_byte_len_mono(c@, k as int, q);
                }
            }
        }
        return Err(ToolPolicyError {
            message: "offset must be on a UTF-8 character boundary".to_owned(),
            error_type: "invalid_arguments",
        });
    }
    let ks = k;
    // Extend to the last boundary within the limit.
    while k < c.len() && crate::web_search::char_width_exec(c[k]) <= limit - pos
        invariant
            ks <= k <= c.len(),
            c@ == text@,
            pos == byte_len(c@.take(k as int)),
            start <= pos <= limit,
            limit <= file_size,
            byte_len(c@.take(ks as int)) == start,
            file_size == byte_len(c@),
        decreases c.len() - k,
    {
        proof {
            lemma_byte_len_step(c@, k as int);
        }
        let w = crate::web_search::char_width_exec(c[k]);
        pos = pos + w;
        k = k + 1;
    }
    let ke = k;
    proof {
        if ke < c.len() {
            lemma_byte_len_step(c@, ke as int);
        }
        assert(window(text@, file_size as int, start as int, max_bytes as int, ks as int, ke as int));
    }
    let piece = slice_vec(&c, ks, ke);
    let r = TextSlice {
        text: string_of(&piece),
        offset: start,
        bytes_read: pos - start,
        truncated: pos < file_size,
        file_size,
    };
    proof {
        assert(clamped_offset(offset as int, file_size as int) == start as int);
        assert(window(text@, file_size as int, clamped_offset(offset as int, file_size as int), max_bytes as int, ks as int, ke as int));
        assert(window(text@, file_size as int, start as int, max_bytes as int, ks as int, ke as int) && r.text@
            == text@.subrange(ks as int, ke as int) && r.offset == start && r.bytes_read == byte_len(text@.take(ke as int))
            - start && r.truncated == (byte_len(text@.take(ke as int)) < file_size) && r.file_size == file_size);
    }
    Ok(r)
}



// ---------------------------------------------------------------------------
// Listing a directory

/// An entry of a listing.
#[derive(Debug, Clone, PartialEq, Eq)]
pub struct DirEntrySummary {
    pub path: String,
    pub name: String,
    pub kind: &'static str,
    pub size_bytes: Option<u64>,
}

pub open spec fn entry_view(e: DirEntrySummary) -> (Seq<char>, Seq<char>, Seq<char>, Option<u64>) {
    (e.path@, e.name@, e.kind@, e.size_bytes)
}

pub open spec fn entries_view(v: Seq<DirEntrySummary>) -> Seq<(Seq<char>, Seq<char>, Seq<char>, Option<u64>)> {
    v.map_values(|e: DirEntrySummary| entry_view(e))
}

/// The kind label of an entry.
pub open spec fn kind_label(is_dir: bool) -> Seq<char> {
    if is_dir {
        "directory"@
    } else {
        "file"@
    }
}

/// Collects the entries of a directory walk, entry by entry, as
/// `list_directory` does.
#[derive(Debug, Clone)]
pub struct DirectoryCollector {
    pub recursive: bool,
    pub pattern: Option<String>,
    pub kind: String,
    pub max_entries: usize,
    pub entries: Vec<DirEntrySummary>,
    pub truncated: bool,
}

/// What the walk does after an entry: stop, or go on and descend into it
/// or not.
#[derive(Debug, Clone, Copy, PartialEq, Eq, Structural)]
pub enum Visit {
    Stop,
    Continue { descend: bool },
}

impl DirectoryCollector {
    pub fn new(recursive: bool, pattern: Option<String>, kind: String, max_entries: usize) -> (r: Self)
        ensures
            r.recursive == recursive,
            opt_string(r.pattern) == opt_string(pattern),
            r.kind@ == kind@,
            r.max_entries == max_entries,
            r.entries@.len() == 0,
            !r.truncated,
    {
        DirectoryCollector { recursive, pattern, kind, max_entries, entries: Vec::new(), truncated: false }
    }

    /// Takes one entry of the walk: `relative` is its workspace-relative path
    /// when it resolves safely inside the workspace. A full listing stops
    /// the walk; an entry under a denied root is passed over; an entry of
    /// the asked kind whose path holds the pattern is listed.
    pub fn visit(&mut self, relative: Option<String>, name: String, is_dir: bool, size_bytes: Option<u64>) -> (r: Visit)
        ensures
            final(self).recursive == old(self).recursive,
            final(self).pattern == old(self).pattern,
            final(self).kind == old(self).kind,
            final(self).max_entries == old(self).max_entries,
            old(self).entries@.len() > old(self).max_entries ==> r == Visit::Stop && final(self).truncated
                && final(self).entries@ == old(self).entries@,
            old(self).entries@.len() <= old(self).max_entries ==> match opt_string(relative) {
                None => r == (Visit::Continue { descend: false }) && final(self).entries@ == old(self).entries@
                    && final(self).truncated == old(self).truncated,
                Some(rel) => if denied_path(rel) {
                    r == (Visit::Continue { descend: false }) && final(self).entries@ == old(self).entries@
                        && final(self).truncated == old(self).truncated
                } else if (old(self).kind@ == "any"@ || kind_label(is_dir) == old(self).kind@) && pattern_matches(
                    rel,
                    opt_string(old(self).pattern),
                ) {
                    if old(self).entries@.len() >= old(self).max_entries {
                        r == Visit::Stop && final(self).truncated && final(self).entries@ == old(self).entries@
                    } else {
                        r == (Visit::Continue { descend: old(self).recursive && is_dir }) && final(self).truncated
                            == old(self).truncated && entries_view(final(self).entries@) == entries_view(
                            old(self).entries@,
                        ).push((rel, name@, kind_label(is_dir), if is_dir {
                            None
                        } else {
                            size_bytes
                        }))
                    }
                } else {
                    r == (Visit::Continue { descend: old(self).recursive && is_dir }) && final(self).entries@
                        == old(self).entries@ && final(self).truncated == old(self).truncated
                },
            },
    {
        if self.entries.len() > self.max_entries {
            self.truncated = true;
            return Visit::Stop;
        }
        let rel = match relative {
            None => return Visit::Continue { descend: false },
            Some(r) => r,
        };
        if is_denied_path(rel.as_str()) {
            return Visit::Continue { descend: false };
        }
        let kind_text: &'static str = if is_dir {
            "directory"
        } else {
            "file"
        };
        if matches_kind_text(kind_text, self.kind.as_str()) && matches_pattern(rel.as_str(), &self.pattern) {
            if self.entries.len() >= self.max_entries {
                self.truncated = true;
                return Visit::Stop;
            }
            let ghost before = entries_view(self.entries@);
            let ghost rv = rel@;
            self.entries.push(DirEntrySummary {
                name,
                path: rel,
                kind: kind_text,
                size_bytes: if is_dir {
                    None
                } else {
                    size_bytes
                },
            });
            proof {
                assert(entries_view(self.entries@) =~= before.push(entry_view(self.entries@.last())));
            }
        }
        Visit::Continue { descend: self.recursive && is_dir }
    }
}

/// Paths never decrease along the listing.
pub open spec fn sorted_by_path(v: Seq<(Seq<char>, Seq<char>, Seq<char>, Option<u64>)>) -> bool {
    forall|i: int, j: int| 0 <= i < j < v.len() ==> !text_lt(#[trigger] v[j].0, #[trigger] v[i].0)
}

/// The entries of the asked kind whose paths hold the pattern, in order.
pub open spec fn kept_entries(
    v: Seq<(Seq<char>, Seq<char>, Seq<char>, Option<u64>)>,
    kind: Seq<char>,
    pattern: Option<Seq<char>>,
) -> Seq<(Seq<char>, Seq<char>, Seq<char>, Option<u64>)>
    decreases v.len(),
{
    if v.len() == 0 {
        Seq::empty()
    } else {
        let prev = kept_entries(v.drop_last(), kind, pattern);
        let e = v.last();
        if (kind == "any"@ || e.2 == kind) && pattern_matches(e.0, pattern) {
            prev.push(e)
        } else {
            prev
        }
    }
}

fn insert_by_path(v: &mut Vec<DirEntrySummary>, e: DirEntrySummary)
    requires
        sorted_by_path(entries_view(old(v)@)),
    ensures
        sorted_by_path(entries_view(final(v)@)),
        entries_view(final(v)@).to_multiset() == entries_view(old(v)@).to_multiset().insert(entry_view(e)),
{
    broadcast use vstd::seq_lib::group_to_multiset_ensures;

    let ghost old_v = entries_view(v@);
    let ep = chars_of(e.path.as_str());
    let mut j: usize = 0;
    while j < v.len() && !text_lt_exec(&ep, &chars_of(v[j].path.as_str()))
        invariant
            j <= v.len(),
            old_v == entries_view(v@),
            ep@ == e.path@,
            forall|k: int| 0 <= k < j ==> !text_lt(e.path@, #[trigger] old_v[k].0),
        decreases v.len() - j,
    {
        proof {
            assert(old_v[j as int].0 == v@[j as int].path@);
        }
        j = j + 1;
    }
    proof {
        if j < v.len() {
            assert(old_v[j as int].0 == v@[j as int].path@);
            assert(text_lt(e.path@, old_v[j as int].0));
        }
    }
    let ghost ev = entry_view(e);
    v.insert(j, e);
    proof {
        let nv = entries_view(v@);
        assert(nv =~= old_v.insert(j as int, ev));
        assert forall|a: int, b: int| 0 <= a < b < nv.len() implies !text_lt(#[trigger] nv[b].0, #[trigger] nv[a].0) by {
            if b < j {
                assert(nv[a] == old_v[a]);
                assert(nv[b] == old_v[b]);
            } else if a < j && b == j {
                assert(nv[a] == old_v[a]);
            } else if a < j && b > j {
                assert(nv[a] == old_v[a]);
                assert(nv[b] == old_v[b - 1]);
            } else if a == j {
                assert(nv[b] == old_v[b - 1]);
                if text_lt(old_v[b - 1].0, ev.0) {
                    if b - 1 == j {
                        lemma_text_lt_irreflexive(ev.0);
                        lemma_text_lt_transitive(ev.0, old_v[j as int].0, ev.0);
                    } else {
                        assert(!text_lt(old_v[b - 1].0, old_v[j as int].0));
                        lemma_text_lt_total(old_v[j as int].0, old_v[b - 1].0);
                        if old_v[j as int].0 != old_v[b - 1].0 {
                            lemma_text_lt_transitive(ev.0, old_v[j as int].0, old_v[b - 1].0);
                        }
                        lemma_text_lt_irreflexive(ev.0);
                        lemma_text_lt_transitive(ev.0, old_v[b - 1].0, ev.0);
                    }
                }
            } else {
                assert(nv[a] == old_v[a - 1]);
                assert(nv[b] == old_v[b - 1]);
            }
        }
        vstd::seq_lib::to_multiset_insert(old_v, j as int, ev);
    }
}

/// The listing as `list_directory` returns it: the entries of the asked
/// kind whose paths hold the pattern, ordered by path, at most
/// `max_entries` of them; `truncated` is set when some were cut.
pub fn filter_directory_entries(
    entries: Vec<DirEntrySummary>,
    kind: &str,
    pattern: &Option<String>,
    max_entries: usize,
    truncated: bool,
) -> (r: (Vec<DirEntrySummary>, bool))
    ensures
        ({
            let k = kept_entries(entries_view(entries@), kind@, opt_string(*pattern));
            &&& sorted_by_path(entries_view(r.0@))
            &&& k.len() > max_entries ==> r.1 && entries_view(r.0@).len() == max_entries
            &&& k.len() <= max_entries ==> r.1 == truncated && entries_view(r.0@).to_multiset() == k.to_multiset()
            &&& entries_view(r.0@).len() <= max_entries
            &&& exists|all_sorted: Seq<(Seq<char>, Seq<char>, Seq<char>, Option<u64>)>|
                sorted_by_path(all_sorted) && #[trigger] all_sorted.to_multiset() == k.to_multiset()
                    && entries_view(r.0@) == if k.len() > max_entries {
                    all_sorted.take(max_entries as int)
                } else {
                    all_sorted
                }
        }),
{
    broadcast use vstd::seq_lib::group_to_multiset_ensures;

    let ghost all = entries_view(entries@);
    let mut out: Vec<DirEntrySummary> = Vec::new();
    let mut i: usize = 0;
    proof {
        assert(all.take(0) =~= Seq::<(Seq<char>, Seq<char>, Seq<char>, Option<u64>)>::empty());
        assert(entries_view(out@) =~= Seq::<(Seq<char>, Seq<char>, Seq<char>, Option<u64>)>::empty());
    }
    while i < entries.len()
        invariant
            i <= entries.len(),
            all == entries_view(entries@),
            sorted_by_path(entries_view(out@)),
            entries_view(out@).to_multiset() == kept_entries(all.take(i as int), kind@, opt_string(*pattern)).to_multiset(),
        decreases entries.len() - i,
    {
        proof {
            assert(all.take(i + 1).drop_last() =~= all.take(i as int));
            assert(all.take(i + 1).last() == entry_view(entries@[i as int]));
        }
        let e = &entries[i];
        let ghost prev = kept_entries(all.take(i as int), kind@, opt_string(*pattern));
        if matches_kind_text(e.kind, kind) && matches_pattern(e.path.as_str(), pattern) {
            let copy = DirEntrySummary {
                path: e.path.as_str().to_owned(),
                name: e.name.as_str().to_owned(),
                kind: e.kind,
                size_bytes: e.size_bytes,
            };
            proof {
                assert(entry_view(copy) == entry_view(entries@[i as int]));
                assert(kept_entries(all.take(i + 1), kind@, opt_string(*pattern)) == prev.push(entry_view(copy)));
                prev.to_multiset_ensures();
            }
            insert_by_path(&mut out, copy);
        } else {
            proof {
                assert(kept_entries(all.take(i + 1), kind@, opt_string(*pattern)) == prev);
            }
        }
        i = i + 1;
    }
    proof {
        assert(all.take(all.len() as int) =~= all);
        entries_view(out@).to_multiset_ensures();
        kept_entries(all, kind@, opt_string(*pattern)).to_multiset_ensures();
    }
    let ghost full = entries_view(out@);
    proof {
        full.to_multiset_ensures();
        assert(full.len() == kept_entries(all, kind@, opt_string(*pattern)).len());
    }
    if out.len() > max_entries {
        let ghost before = entries_view(out@);
        out.truncate(max_entries);
        proof {
            assert(entries_view(out@) =~= before.subrange(0, max_entries as int));
            assert(entries_view(out@) =~= full.take(max_entries as int));
            assert forall|a: int, b: int| 0 <= a < b < entries_view(out@).len() implies !text_lt(
                #[trigger] entries_view(out@)[b].0,
                #[trigger] entries_view(out@)[a].0,
            ) by {
                assert(entries_view(out@)[a] == before[a]);
                assert(entries_view(out@)[b] == before[b]);
            }
        }
        return (out, true);
    }
    (out, truncated)
}

// ---------------------------------------------------------------------------
// Searching

/// A line of a file that holds the query.
#[derive(Debug, Clone, PartialEq, Eq)]
pub struct SearchMatch {
    pub path: String,
    pub line_number: usize,
    pub line: String,
}

pub open spec fn match_view(m: SearchMatch) -> (Seq<char>, int, Seq<char>) {
    (m.path@, m.line_number as int, m.line@)
}

pub open spec fn matches_view(v: Seq<SearchMatch>) -> Seq<(Seq<char>, int, Seq<char>)> {
    v.map_values(|m: SearchMatch| match_view(m))
}

/// The matches of a file's lines from line `i` on, when `count` matches are
/// already found: each line holding the query, numbered from one, until
/// `max` matches are found, which truncates the search.
pub open spec fn line_matches(
    path: Seq<char>,
    ls: Seq<Seq<char>>,
    query: Seq<char>,
    max: int,
    i: int,
    count: int,
) -> (Seq<(Seq<char>, int, Seq<char>)>, bool)
    decreases ls.len() - i,
{
    if i < 0 || i >= ls.len() {
        (Seq::empty(), false)
    } else if contains(ls[i], query) {
        if count >= max {
            (Seq::empty(), true)
        } else {
            let rest = line_matches(path, ls, query, max, i + 1, count + 1);
            (seq![(path, i + 1, ls[i])] + rest.0, rest.1)
        }
    } else {
        line_matches(path, ls, query, max, i + 1, count)
    }
}

/// Adds the matching lines of a file to the matches found so far; true when
/// the search is full.
pub fn push_file_matches(
    relative: &str,
    text: &str,
    query: &str,
    max_results: usize,
    matches: &mut Vec<SearchMatch>,
) -> (truncated: bool)
    ensures
        ({
            let found = line_matches(relative@, lines(text@), query@, max_results as int, 0, old(matches)@.len() as int);
            matches_view(final(matches)@) == matches_view(old(matches)@) + found.0 && truncated == found.1
        }),
{
    let ls = lines_exec(&chars_of(text));
    let q = chars_of(query);
    let ghost start = matches_view(matches@);
    let ghost c0 = matches@.len() as int;
    let ghost all = views(ls@);
    let ghost mut found: Seq<(Seq<char>, int, Seq<char>)> = Seq::empty();
    let mut i: usize = 0;
    proof {
        assert(start + found =~= start);
        let whole = line_matches(relative@, all, query@, max_results as int, 0, c0);
        assert(found + whole.0 =~= whole.0);
    }
    while i < ls.len()
        invariant
            i <= ls.len(),
            all == views(ls@),
            all == lines(text@),
            q@ == query@,
            start == matches_view(old(matches)@),
            c0 == old(matches)@.len(),
            matches_view(matches@) == start + found,
            matches@.len() == c0 + found.len(),
            ({
                let whole = line_matches(relative@, all, query@, max_results as int, 0, c0);
                let here = line_matches(relative@, all, query@, max_results as int, i as int, c0 + found.len());
                whole.0 == found + here.0 && whole.1 == here.1
            }),
        decreases ls.len() - i,
    {
        proof {
            assert(all[i as int] == ls@[i as int]@);
        }
        if contains_exec(&ls[i], &q) {
            if matches.len() >= max_results {
                proof {
                    assert(line_matches(relative@, all, query@, max_results as int, i as int, c0 + found.len()) == (
                    Seq::<(Seq<char>, int, Seq<char>)>::empty(), true));
                    assert(found + Seq::<(Seq<char>, int, Seq<char>)>::empty() =~= found);
                }
                return true;
            }
            let ghost item = (relative@, (i + 1) as int, all[i as int]);
            let ghost rest = line_matches(relative@, all, query@, max_results as int, i + 1, c0 + found.len() + 1);
            matches.push(SearchMatch {
                path: relative.to_owned(),
                line_number: i + 1,
                line: string_of(&ls[i]),
            });
            proof {
                assert(matches_view(matches@) =~= (start + found).push(item));
                assert((start + found).push(item) =~= start + found.push(item));
                assert(found + (seq![item] + rest.0) =~= found.push(item) + rest.0);
                found = found.push(item);
            }
        }
        i = i + 1;
    }
    proof {
        assert(found + Seq::<(Seq<char>, int, Seq<char>)>::empty() =~= found);
    }
    false
}

// ---------------------------------------------------------------------------
// Arguments of the read-only tools

/// A required string argument that is missing or not a string.
pub open spec fn missing_arg_error(key: Seq<char>) -> (Seq<char>, Seq<char>) {
    invalid("missing required string argument '"@ + key + "'"@)
}

pub(crate) fn missing_arg(key: &str) -> (e: ToolPolicyError)
    ensures
        e@ == missing_arg_error(key@),
{
    ToolPolicyError { message: string_of(&surround("missing required string argument '", &chars_of(key), "'")), error_type: "invalid_arguments" }
}

/// What `read_file` reads of its arguments.
#[derive(Debug, Clone, PartialEq, Eq)]
pub struct ReadFileArgs {
    pub path: String,
    pub offset: usize,
    pub max_bytes: usize,
}

pub open spec fn read_file_keys() -> Seq<Seq<char>> {
    seq!["path"@, "offset"@, "max_bytes"@]
}

/// The arguments of `read_file`: a string `path`, an `offset` (zero by
/// default) and a byte limit (at most, and by default, the read cap); text
/// that is no JSON, or a missing path, is refused.
pub fn read_file_args(arguments: &str) -> (r: Result<ReadFileArgs, ToolPolicyError>)
    ensures
        match json_fields(arguments@, read_file_keys()) {
            Err(e) => r matches Err(x) && x@ == invalid_args_error(e),
            Ok(f) => match field_text(f[0]) {
                None => r matches Err(x) && x@ == missing_arg_error("path"@),
                Some(p) => r matches Ok(a) && a.path@ == p && a.offset == limit_of(f[1].3, 0, usize::MAX)
                    && a.max_bytes == limit_of(f[2].3, MAX_FILE_READ_BYTES, MAX_FILE_READ_BYTES),
            },
        },
{
    let mut keys: Vec<&str> = Vec::new();
    keys.push("path");
    keys.push("offset");
    keys.push("max_bytes");
    proof {
        assert(keys_view(keys@) =~= read_file_keys());
    }
    let fields = match read_fields(arguments, &keys) {
        Err(e) => return Err(invalid_args_exec(&e)),
        Ok(v) => v,
    };
    proof {
        assert(fields_view(fields@)[0] == field_view(fields@[0]));
        assert(fields_view(fields@)[1] == field_view(fields@[1]));
        assert(fields_view(fields@)[2] == field_view(fields@[2]));
    }
    let path = match copy_text_of(&fields[0]) {
        Some(p) => p,
        None => return Err(missing_arg("path")),
    };
    Ok(
        ReadFileArgs {
            path,
            offset: limit_arg(take_unsigned(&fields[1]), 0, usize::MAX),
            max_bytes: limit_arg(take_unsigned(&fields[2]), MAX_FILE_READ_BYTES, MAX_FILE_READ_BYTES),
        },
    )
}

/// What `list_directory` reads of its arguments.
#[derive(Debug, Clone, PartialEq, Eq)]
pub struct ListDirectoryArgs {
    pub path: String,
    pub recursive: bool,
    pub pattern: Option<String>,
    pub kind: String,
    pub max_entries: usize,
}

pub open spec fn list_directory_keys() -> Seq<Seq<char>> {
    seq!["path"@, "recursive"@, "pattern"@, "kind"@, "max_entries"@]
}

/// The arguments of `list_directory`: a string `path`, `recursive` (false
/// by default), an optional `pattern`, a `kind` (`any` by default) and an
/// entry limit (at most, and by default, the listing cap).
pub fn list_directory_args(arguments: &str) -> (r: Result<ListDirectoryArgs, ToolPolicyError>)
    ensures
        match json_fields(arguments@, list_directory_keys()) {
            Err(e) => r matches Err(x) && x@ == invalid_args_error(e),
            Ok(f) => match field_text(f[0]) {
                None => r matches Err(x) && x@ == missing_arg_error("path"@),
                Some(p) => r matches Ok(a) && a.path@ == p && a.recursive == (f[1].4 == Some(true))
                    && opt_string(a.pattern) == field_text(f[2]) && a.kind@ == (match field_text(f[3]) {
                    Some(k) => k,
                    None => "any"@,
                }) && a.max_entries == limit_of(f[4].3, MAX_DIR_ENTRIES, MAX_DIR_ENTRIES),
            },
        },
{
    let mut keys: Vec<&str> = Vec::new();
    keys.push("path");
    keys.push("recursive");
    keys.push("pattern");
    keys.push("kind");
    keys.push("max_entries");
    proof {
        assert(keys_view(keys@) =~= list_directory_keys());
    }
    let fields = match read_fields(arguments, &keys) {
        Err(e) => return Err(invalid_args_exec(&e)),
        Ok(v) => v,
    };
    proof {
        assert forall|k: int| 0 <= k < 5 implies fields_view(fields@)[k] == field_view(fields@[k]) by {}
    }
    let path = match copy_text_of(&fields[0]) {
        Some(p) => p,
        None => return Err(missing_arg("path")),
    };
    let recursive = match take_flag(&fields[1]) {
        Some(b) => b,
        None => false,
    };
    let kind = match copy_text_of(&fields[3]) {
        Some(k) => k,
        None => "any".to_owned(),
    };
    Ok(
        ListDirectoryArgs {
            path,
            recursive,
            pattern: copy_text_of(&fields[2]),
            kind,
            max_entries: limit_arg(take_unsigned(&fields[4]), MAX_DIR_ENTRIES, MAX_DIR_ENTRIES),
        },
    )
}

/// What `search_files` reads of its arguments.
#[derive(Debug, Clone, PartialEq, Eq)]
pub struct SearchFilesArgs {
    pub query: String,
    pub path: String,
    pub pattern: Option<String>,
    pub max_results: usize,
}

pub open spec fn search_files_keys() -> Seq<Seq<char>> {
    seq!["query"@, "path"@, "pattern"@, "max_results"@]
}

/// The arguments of `search_files`: a string `query`, a `path` (empty by
/// default), an optional `pattern` and a result limit (at most, and by
/// default, the search cap).
pub fn search_files_args(arguments: &str) -> (r: Result<SearchFilesArgs, ToolPolicyError>)
    ensures
        match json_fields(arguments@, search_files_keys()) {
            Err(e) => r matches Err(x) && x@ == invalid_args_error(e),
            Ok(f) => match field_text(f[0]) {
                None => r matches Err(x) && x@ == missing_arg_error("query"@),
                Some(q) => r matches Ok(a) && a.query@ == q && a.path@ == (match field_text(f[1]) {
                    Some(p) => p,
                    None => Seq::<char>::empty(),
                }) && opt_string(a.pattern) == field_text(f[2]) && a.max_results == limit_of(
                    f[3].3,
                    MAX_SEARCH_RESULTS,
                    MAX_SEARCH_RESULTS,
                ),
            },
        },
{
    let mut keys: Vec<&str> = Vec::new();
    keys.push("query");
    keys.push("path");
    keys.push("pattern");
    keys.push("max_results");
    proof {
        assert(keys_view(keys@) =~= search_files_keys());
    }
    let fields = match read_fields(arguments, &keys) {
        Err(e) => return Err(invalid_args_exec(&e)),
        Ok(v) => v,
    };
    proof {
        assert forall|k: int| 0 <= k < 4 implies fields_view(fields@)[k] == field_view(fields@[k]) by {}
    }
    let query = match copy_text_of(&fields[0]) {
        Some(q) => q,
        None => return Err(missing_arg("query")),
    };
    let path = match copy_text_of(&fields[1]) {
        Some(p) => p,
        None => String::new(),
    };
    Ok(
        SearchFilesArgs {
            query,
            path,
            pattern: copy_text_of(&fields[2]),
            max_results: limit_arg(take_unsigned(&fields[3]), MAX_SEARCH_RESULTS, MAX_SEARCH_RESULTS),
        },
    )
}

} // verus!
