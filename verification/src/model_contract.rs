//! The static contract of a CadQuery model source: a `build` function, a
//! `REFS` map with features, the declared object type, a model description
//! and no unsafe calls or imports of project folders.
//!
//! The description check reads module-level assignments of Python source:
//! `MODEL_DESCRIPTION` must be a non-blank string and `MODEL_DETAILS` a
//! dictionary whose required keys hold non-empty values.
use vstd::prelude::*;
use crate::pyscan::{
    is_identifier_boundary, is_identifier_boundary_exec, lemma_line_comment_end,
    lemma_skip_inline_ws_ge, lemma_skip_ws_ge, lemma_string_at_advances, line_comment_end,
    line_comment_end_exec, skip_inline_ws, skip_inline_ws_exec, skip_ws, skip_ws_exec, string_at,
    string_at_exec, update_depth, update_depth_exec, value_start_for_key, value_start_for_key_exec,
};
use crate::text::{
    append_lit, chars_of, contains, contains_lit, find, find_exec, index_of_char, index_of_char_exec,
    is_ws, is_ws_exec, join_strs, join_with, lemma_index_of_char, lines, lines_exec, occurs_at,
    occurs_at_exec, replace_char, replace_char_exec, slice_vec, split, split_exec, starts_with,
    starts_with_lit, str_seq_views, string_of, strip_prefix, strip_prefix_lit, trim, trim_exec,
    trim_start, trim_start_exec, views,
};
use crate::model::CadQueryObjectKind;
use crate::plan_package::string_views;
use crate::sorted::{insert_sorted_unique, lemma_push_to_set, strictly_sorted};
use crate::workspace_path::{first_piece, first_piece_exec, is_model_root, is_model_root_exec};

verus! {

// ---------------------------------------------------------------------------
// Bracketed collections

/// Scans a bracketed collection from `i`: strings and comments are skipped,
/// every bracket kind moves the depth, and the `close` bracket that brings
/// the depth to zero ends the body, which starts after the outermost `open`.
pub open spec fn collection_scan(s: Seq<char>, i: int, depth: nat, cs: int, open: char, close: char) -> Option<
    (int, int),
>
    decreases s.len() - i,
{
    if i < 0 || i >= s.len() {
        None
    } else {
        let c = s[i];
        if c == '\'' || c == '"' {
            proof {
                lemma_string_at_advances(s, i, c, true);
            }
            match string_at(s, i, c, true) {
                None => None,
                Some((e, _)) => collection_scan(s, e, depth, cs, open, close),
            }
        } else if c == '#' {
            proof {
                lemma_line_comment_end(s, i);
            }
            collection_scan(s, line_comment_end(s, i), depth, cs, open, close)
        } else {
            let cs2 = if c == open && depth == 0 {
                i + 1
            } else {
                cs
            };
            let d = update_depth(c, depth);
            if c == close && d == 0 {
                Some((cs2, i))
            } else {
                collection_scan(s, i + 1, d, cs2, open, close)
            }
        }
    }
}

pub proof fn lemma_collection_scan_bounds(s: Seq<char>, i: int, depth: nat, cs: int, open: char, close: char)
    requires
        0 <= cs <= i,
        open != close,
    ensures
        collection_scan(s, i, depth, cs, open, close) matches Some((a, b)) ==> 0 <= a <= b < s.len(),
    decreases s.len() - i,
{
    if 0 <= i < s.len() {
        let c = s[i];
        if c == '\'' || c == '"' {
            lemma_string_at_advances(s, i, c, true);
            if let Some((e, _)) = string_at(s, i, c, true) {
                lemma_collection_scan_bounds(s, e, depth, cs, open, close);
            }
        } else if c == '#' {
            lemma_line_comment_end(s, i);
            lemma_collection_scan_bounds(s, line_comment_end(s, i), depth, cs, open, close);
        } else {
            let cs2 = if c == open && depth == 0 {
                i + 1
            } else {
                cs
            };
            let d = update_depth(c, depth);
            if !(c == close && d == 0) {
                lemma_collection_scan_bounds(s, i + 1, d, cs2, open, close);
            }
        }
    }
}

/// The body of the collection whose `open` bracket is at `oi`.
pub open spec fn collection_body_at(s: Seq<char>, oi: int, open: char, close: char) -> Option<Seq<char>> {
    if 0 <= oi < s.len() && s[oi] == open {
        match collection_scan(s, oi, 0, oi, open, close) {
            Some((a, b)) => Some(s.subrange(a, b)),
            None => None,
        }
    } else {
        None
    }
}

/// Whether a collection body holds anything but punctuation, white space,
/// comments and blank strings.
pub open spec fn body_has_content(b: Seq<char>, i: int) -> bool
    decreases b.len() - i,
{
    if i < 0 || i >= b.len() {
        false
    } else {
        let c = b[i];
        if c == '\'' || c == '"' {
            proof {
                lemma_string_at_advances(b, i, c, true);
            }
            match string_at(b, i, c, true) {
                None => false,
                Some((e, t)) => if trim(t).len() > 0 {
                    true
                } else {
                    body_has_content(b, e)
                },
            }
        } else if c == '#' {
            proof {
                lemma_line_comment_end(b, i);
            }
            body_has_content(b, line_comment_end(b, i))
        } else if c == ':' || c == ',' || c == '{' || c == '}' || c == '[' || c == ']' || c == '('
            || c == ')' || is_ws(c) {
            body_has_content(b, i + 1)
        } else {
            true
        }
    }
}

/// A dictionary value starting at `vs` (after white space) is a non-blank
/// string or a dictionary or list with content.
pub open spec fn dict_value_non_empty(d: Seq<char>, vs: int) -> bool {
    let v = skip_ws(d, vs);
    if 0 <= v < d.len() {
        let c = d[v];
        if c == '\'' || c == '"' {
            match string_at(d, v, c, true) {
                Some((_, t)) => trim(t).len() > 0,
                None => false,
            }
        } else if c == '{' {
            match collection_body_at(d, v, '{', '}') {
                Some(b) => body_has_content(b, 0),
                None => false,
            }
        } else if c == '[' {
            match collection_body_at(d, v, '[', ']') {
                Some(b) => body_has_content(b, 0),
                None => false,
            }
        } else {
            false
        }
    } else {
        false
    }
}

/// A dictionary body has `key` at depth zero with a non-empty value.
pub open spec fn dict_has_key(d: Seq<char>, key: Seq<char>) -> bool {
    match value_start_for_key(d, key, true) {
        Some(v) => dict_value_non_empty(d, v),
        None => false,
    }
}

// ---------------------------------------------------------------------------
// Module-level assignments

/// After a name: `= value` (not `==`), or `: annotation = value` on the
/// same line; gives where the value starts.
pub open spec fn assignment_value_start(s: Seq<char>, name_end: int) -> Option<int> {
    let i = skip_inline_ws(s, name_end);
    if 0 <= i < s.len() && s[i] == '=' && !(i + 1 < s.len() && s[i + 1] == '=') {
        Some(i + 1)
    } else if !(0 <= i < s.len() && s[i] == ':') {
        None
    } else {
        let line_end = match index_of_char(s.subrange(i, s.len() as int), '\n') {
            Some(o) => i + o,
            None => s.len() as int,
        };
        match index_of_char(s.subrange(i + 1, line_end), '=') {
            None => None,
            Some(o) => {
                let a = i + 1 + o;
                if a + 1 < s.len() && s[a + 1] == '=' {
                    None
                } else {
                    Some(a + 1)
                }
            },
        }
    }
}

pub open spec fn name_step(name: Seq<char>) -> int {
    if name.len() > 0 {
        name.len() as int
    } else {
        1
    }
}

/// Scans from `i` for `name` at the start of a line, outside strings and
/// comments, as a whole identifier followed by an assignment; gives where
/// the assigned value starts.
pub open spec fn assignment_scan(s: Seq<char>, name: Seq<char>, i: int) -> Option<int>
    decreases s.len() - i,
{
    if i < 0 || i >= s.len() {
        None
    } else {
        let c = s[i];
        if c == '\'' || c == '"' {
            proof {
                lemma_string_at_advances(s, i, c, true);
            }
            match string_at(s, i, c, true) {
                None => None,
                Some((e, _)) => assignment_scan(s, name, e),
            }
        } else if c == '#' {
            proof {
                lemma_line_comment_end(s, i);
            }
            assignment_scan(s, name, line_comment_end(s, i))
        } else if !(i == 0 || s[i - 1] == '\n') || !occurs_at(s, name, i) {
            assignment_scan(s, name, i + 1)
        } else if !is_identifier_boundary(s, i, name.len() as int) {
            assignment_scan(s, name, i + name_step(name))
        } else {
            match assignment_value_start(s, i + name.len()) {
                Some(v) => Some(v),
                None => assignment_scan(s, name, i + name_step(name)),
            }
        }
    }
}

pub proof fn lemma_assignment_value_start_bounds(s: Seq<char>, name_end: int)
    requires
        0 <= name_end <= s.len(),
    ensures
        assignment_value_start(s, name_end) matches Some(v) ==> 0 < v <= s.len(),
{
    lemma_skip_inline_ws_ge(s, name_end);
    let i = skip_inline_ws(s, name_end);
    if 0 <= i < s.len() && s[i] == ':' {
        lemma_index_of_char(s.subrange(i, s.len() as int), '\n');
        let line_end = match index_of_char(s.subrange(i, s.len() as int), '\n') {
            Some(o) => i + o,
            None => s.len() as int,
        };
        if line_end > i {
            lemma_index_of_char(s.subrange(i + 1, line_end), '=');
        }
    }
}

pub proof fn lemma_assignment_scan_bounds(s: Seq<char>, name: Seq<char>, i: int)
    ensures
        assignment_scan(s, name, i) matches Some(v) ==> 0 < v <= s.len(),
    decreases s.len() - i,
{
    if 0 <= i < s.len() {
        let c = s[i];
        if c == '\'' || c == '"' {
            lemma_string_at_advances(s, i, c, true);
            if let Some((e, _)) = string_at(s, i, c, true) {
                lemma_assignment_scan_bounds(s, name, e);
            }
        } else if c == '#' {
            lemma_line_comment_end(s, i);
            lemma_assignment_scan_bounds(s, name, line_comment_end(s, i));
        } else if !(i == 0 || s[i - 1] == '\n') || !occurs_at(s, name, i) {
            lemma_assignment_scan_bounds(s, name, i + 1);
        } else if !is_identifier_boundary(s, i, name.len() as int) {
            lemma_assignment_scan_bounds(s, name, i + name_step(name));
        } else {
            lemma_assignment_value_start_bounds(s, i + name.len());
            lemma_assignment_scan_bounds(s, name, i + name_step(name));
        }
    }
}

/// The module-level assignment of `name` is a non-blank string literal.
pub open spec fn has_string_assignment(s: Seq<char>, name: Seq<char>) -> bool {
    match assignment_scan(s, name, 0) {
        None => false,
        Some(v) => {
            let value = trim_start(s.subrange(v, s.len() as int));
            value.len() > 0 && (value[0] == '\'' || value[0] == '"') && match string_at(
                value,
                0,
                value[0],
                true,
            ) {
                Some((_, t)) => trim(t).len() > 0,
                None => false,
            }
        },
    }
}

/// The body of the dictionary assigned to `name` at module level.
pub open spec fn assignment_dict(s: Seq<char>, name: Seq<char>) -> Option<Seq<char>> {
    match assignment_scan(s, name, 0) {
        None => None,
        Some(v) => {
            let value = s.subrange(v, s.len() as int);
            collection_body_at(value, skip_ws(value, 0), '{', '}')
        },
    }
}

/// A model source describes itself: a non-blank `MODEL_DESCRIPTION` and a
/// `MODEL_DETAILS` dictionary with every required detail filled in.
pub open spec fn has_model_description(s: Seq<char>) -> bool {
    has_string_assignment(s, "MODEL_DESCRIPTION"@) && match assignment_dict(s, "MODEL_DETAILS"@) {
        Some(d) => dict_has_key(d, "purpose"@) && dict_has_key(d, "key_dimensions"@) && dict_has_key(
            d,
            "intended_use"@,
        ) && dict_has_key(d, "assumptions"@) && dict_has_key(d, "interaction_notes"@)
            && dict_has_key(d, "manufacturing_or_placement_constraints"@),
        None => false,
    }
}

// ---------------------------------------------------------------------------
// Executable scanning

/// The body of the collection opening at `oi`.
pub fn collection_body_at_exec(s: &[char], oi: usize, open: char, close: char) -> (r: Option<Vec<char>>)
    requires
        open != close,
    ensures
        match r {
            Some(b) => collection_body_at(s@, oi as int, open, close) == Some(b@),
            None => collection_body_at(s@, oi as int, open, close) is None,
        },
{
    if oi >= s.len() || s[oi] != open {
        return None;
    }
    let mut i: usize = oi;
    let mut depth: usize = 0;
    let mut cs: usize = oi;
    while i < s.len()
        invariant
            oi < s.len(),
            s@[oi as int] == open,
            open != close,
            oi <= i <= s.len(),
            cs <= i,
            depth <= i,
            collection_scan(s@, oi as int, 0, oi as int, open, close) == collection_scan(
                s@,
                i as int,
                depth as nat,
                cs as int,
                open,
                close,
            ),
        decreases s.len() - i,
    {
        let c = s[i];
        if c == '\'' || c == '"' {
            proof {
                lemma_string_at_advances(s@, i as int, c, true);
            }
            match string_at_exec(s, i, c, true) {
                None => return None,
                Some((e, _)) => {
                    i = e;
                },
            }
        } else if c == '#' {
            proof {
                lemma_line_comment_end(s@, i as int);
            }
            i = line_comment_end_exec(s, i);
        } else {
            if c == open && depth == 0 {
                cs = i + 1;
            }
            let d = update_depth_exec(c, depth);
            if c == close && d == 0 {
                proof {
                    lemma_collection_scan_bounds(s@, oi as int, 0, oi as int, open, close);
                }
                return Some(slice_vec(s, cs, i));
            }
            depth = d;
            i = i + 1;
        }
    }
    None
}

/// Whether a collection body has content.
pub fn body_has_content_exec(b: &[char]) -> (r: bool)
    ensures
        r == body_has_content(b@, 0),
{
    let mut i: usize = 0;
    while i < b.len()
        invariant
            i <= b.len(),
            body_has_content(b@, 0) == body_has_content(b@, i as int),
        decreases b.len() - i,
    {
        let c = b[i];
        if c == '\'' || c == '"' {
            proof {
                lemma_string_at_advances(b@, i as int, c, true);
            }
            match string_at_exec(b, i, c, true) {
                None => return false,
                Some((e, t)) => {
                    if trim_exec(&t).len() > 0 {
                        return true;
                    }
                    i = e;
                },
            }
        } else if c == '#' {
            proof {
                lemma_line_comment_end(b@, i as int);
            }
            i = line_comment_end_exec(b, i);
        } else if c == ':' || c == ',' || c == '{' || c == '}' || c == '[' || c == ']' || c == '('
            || c == ')' || is_ws_exec(c) {
            i = i + 1;
        } else {
            return true;
        }
    }
    false
}

fn dict_value_non_empty_exec(d: &[char], vs: usize) -> (r: bool)
    ensures
        r == dict_value_non_empty(d@, vs as int),
{
    let v = skip_ws_exec(d, vs);
    proof {
        lemma_skip_ws_ge(d@, vs as int);
    }
    if v >= d.len() {
        return false;
    }
    let c = d[v];
    if c == '\'' || c == '"' {
        match string_at_exec(d, v, c, true) {
            Some((_, t)) => trim_exec(&t).len() > 0,
            None => false,
        }
    } else if c == '{' {
        match collection_body_at_exec(d, v, '{', '}') {
            Some(b) => body_has_content_exec(&b),
            None => false,
        }
    } else if c == '[' {
        match collection_body_at_exec(d, v, '[', ']') {
            Some(b) => body_has_content_exec(&b),
            None => false,
        }
    } else {
        false
    }
}

/// Whether a dictionary body has `key` with a non-empty value.
pub fn dict_has_key_exec(d: &[char], key: &str) -> (r: bool)
    ensures
        r == dict_has_key(d@, key@),
{
    let k = chars_of(key);
    match value_start_for_key_exec(d, &k, true) {
        Some(v) => dict_value_non_empty_exec(d, v),
        None => false,
    }
}

fn assignment_value_start_exec(s: &[char], name_end: usize) -> (r: Option<usize>)
    requires
        name_end <= s.len(),
    ensures
        match r {
            Some(v) => assignment_value_start(s@, name_end as int) == Some(v as int),
            None => assignment_value_start(s@, name_end as int) is None,
        },
{
    let i = skip_inline_ws_exec(s, name_end);
    proof {
        lemma_skip_inline_ws_ge(s@, name_end as int);
    }
    if i < s.len() && s[i] == '=' && !(i + 1 < s.len() && s[i + 1] == '=') {
        return Some(i + 1);
    }
    if !(i < s.len() && s[i] == ':') {
        return None;
    }
    let rest = slice_vec(s, i, s.len());
    let line_end = match index_of_char_exec(&rest, '\n') {
        Some(o) => i + o,
        None => s.len(),
    };
    proof {
        assert(s@[i as int] != '\n');
        if line_end < s.len() {
            assert(rest@[line_end - i] == '\n');
        }
    }
    let line = slice_vec(s, i + 1, line_end);
    match index_of_char_exec(&line, '=') {
        None => None,
        Some(o) => {
            let a = i + 1 + o;
            if a + 1 < s.len() && s[a + 1] == '=' {
                None
            } else {
                Some(a + 1)
            }
        },
    }
}

/// Where the value of the module-level assignment of `name` starts.
#[verifier::rlimit(80)]
fn assignment_scan_exec(s: &[char], name: &[char]) -> (r: Option<usize>)
    requires
        name.len() > 0,
    ensures
        match r {
            Some(v) => assignment_scan(s@, name@, 0) == Some(v as int) && v <= s.len(),
            None => assignment_scan(s@, name@, 0) is None,
        },
{
    proof {
        lemma_assignment_scan_bounds(s@, name@, 0);
    }
    let mut i: usize = 0;
    while i < s.len()
        invariant
            i <= s.len(),
            name.len() > 0,
            assignment_scan(s@, name@, 0) == assignment_scan(s@, name@, i as int),
        decreases s.len() - i,
    {
        let c = s[i];
        if c == '\'' || c == '"' {
            proof {
                lemma_string_at_advances(s@, i as int, c, true);
            }
            match string_at_exec(s, i, c, true) {
                None => return None,
                Some((e, _)) => {
                    i = e;
                },
            }
        } else if c == '#' {
            proof {
                lemma_line_comment_end(s@, i as int);
            }
            i = line_comment_end_exec(s, i);
        } else if !(i == 0 || s[i - 1] == '\n') || !occurs_at_exec(s, name, i) {
            i = i + 1;
        } else if !is_identifier_boundary_exec(s, i, name.len()) {
            i = i + name.len();
        } else {
            match assignment_value_start_exec(s, i + name.len()) {
                Some(v) => {
                    proof {
                        assert(assignment_scan(s@, name@, i as int) == Some(v as int));
                        lemma_assignment_scan_bounds(s@, name@, 0);
                    }
                    return Some(v);
                },
                None => {
                    i = i + name.len();
                },
            }
        }
    }
    None
}

/// Whether `name` is assigned a non-blank string literal at module level.
pub fn has_string_assignment_exec(s: &[char], name: &str) -> (r: bool)
    requires
        name@.len() > 0,
    ensures
        r == has_string_assignment(s@, name@),
{
    let n = chars_of(name);
    match assignment_scan_exec(s, &n) {
        None => false,
        Some(v) => {
            let value = trim_start_exec(&slice_vec(s, v, s.len()));
            if value.len() == 0 || !(value[0] == '\'' || value[0] == '"') {
                return false;
            }
            match string_at_exec(&value, 0, value[0], true) {
                Some((_, t)) => trim_exec(&t).len() > 0,
                None => false,
            }
        },
    }
}

/// The body of the dictionary assigned to `name` at module level.
pub fn assignment_dict_exec(s: &[char], name: &str) -> (r: Option<Vec<char>>)
    requires
        name@.len() > 0,
    ensures
        match r {
            Some(d) => assignment_dict(s@, name@) == Some(d@),
            None => assignment_dict(s@, name@) is None,
        },
{
    let n = chars_of(name);
    match assignment_scan_exec(s, &n) {
        None => None,
        Some(v) => {
            let value = slice_vec(s, v, s.len());
            let start = skip_ws_exec(&value, 0);
            collection_body_at_exec(&value, start, '{', '}')
        },
    }
}

/// Whether a model source carries `MODEL_DESCRIPTION` and a complete
/// `MODEL_DETAILS`.
pub fn has_model_description_exec(source: &[char]) -> (r: bool)
    ensures
        r == has_model_description(source@),
{
    proof {
        reveal_strlit("MODEL_DESCRIPTION");
        reveal_strlit("MODEL_DETAILS");
    }
    if !has_string_assignment_exec(source, "MODEL_DESCRIPTION") {
        return false;
    }
    match assignment_dict_exec(source, "MODEL_DETAILS") {
        None => false,
        Some(d) => dict_has_key_exec(&d, "purpose") && dict_has_key_exec(&d, "key_dimensions")
            && dict_has_key_exec(&d, "intended_use") && dict_has_key_exec(&d, "assumptions")
            && dict_has_key_exec(&d, "interaction_notes") && dict_has_key_exec(
            &d,
            "manufacturing_or_placement_constraints",
        ),
    }
}

// ---------------------------------------------------------------------------
// Source shape

/// The source defines `build`.
pub open spec fn has_build_function(s: Seq<char>) -> bool {
    contains(s, "def build("@) || contains(s, "def build ("@)
}

/// The source mentions `REFS` and `features`.
pub open spec fn has_refs(s: Seq<char>) -> bool {
    contains(s, "REFS"@) && contains(s, "features"@)
}

/// The object type that `REFS` declares, by the first declaration found in
/// the order part, component, assembly.
pub open spec fn declared_type(s: Seq<char>) -> Option<CadQueryObjectKind> {
    if contains(s, "\"type\":\"part\""@) || contains(s, "\"type\": \"part\""@) {
        Some(CadQueryObjectKind::Part)
    } else if contains(s, "\"type\":\"component\""@) || contains(s, "\"type\": \"component\""@) {
        Some(CadQueryObjectKind::Component)
    } else if contains(s, "\"type\":\"assembly\""@) || contains(s, "\"type\": \"assembly\""@) {
        Some(CadQueryObjectKind::Assembly)
    } else {
        None
    }
}

/// The object type a model path implies by its first piece; parts by default.
pub open spec fn target_type_from_path(path: Seq<char>) -> CadQueryObjectKind {
    let root = first_piece(path);
    if root == "components"@ {
        CadQueryObjectKind::Component
    } else if root == "assemblies"@ {
        CadQueryObjectKind::Assembly
    } else {
        CadQueryObjectKind::Part
    }
}

pub fn has_build_function_exec(s: &[char]) -> (r: bool)
    ensures
        r == has_build_function(s@),
{
    contains_lit(s, "def build(") || contains_lit(s, "def build (")
}

pub fn has_refs_exec(s: &[char]) -> (r: bool)
    ensures
        r == has_refs(s@),
{
    contains_lit(s, "REFS") && contains_lit(s, "features")
}

pub fn declared_type_exec(s: &[char]) -> (r: Option<CadQueryObjectKind>)
    ensures
        r == declared_type(s@),
{
    if contains_lit(s, "\"type\":\"part\"") || contains_lit(s, "\"type\": \"part\"") {
        Some(CadQueryObjectKind::Part)
    } else if contains_lit(s, "\"type\":\"component\"") || contains_lit(s, "\"type\": \"component\"") {
        Some(CadQueryObjectKind::Component)
    } else if contains_lit(s, "\"type\":\"assembly\"") || contains_lit(s, "\"type\": \"assembly\"") {
        Some(CadQueryObjectKind::Assembly)
    } else {
        None
    }
}

pub fn target_type_from_path_exec(path: &[char]) -> (r: CadQueryObjectKind)
    ensures
        r == target_type_from_path(path@),
{
    let root = first_piece_exec(path);
    if crate::text::eq_lit(&root, "components") {
        CadQueryObjectKind::Component
    } else if crate::text::eq_lit(&root, "assemblies") {
        CadQueryObjectKind::Assembly
    } else {
        CadQueryObjectKind::Part
    }
}

// ---------------------------------------------------------------------------
// Unsafe calls

/// The calls a model source may not make: what is looked for, and the label
/// reported for it.
pub open spec fn unsafe_needles() -> Seq<(Seq<char>, Seq<char>)> {
    seq![
        ("open("@, "open"@),
        ("open ("@, "open"@),
        ("io.open"@, "io.open"@),
        ("Path("@, "Path"@),
        ("Path ("@, "Path"@),
        ("write_text("@, "write_text"@),
        ("write_bytes("@, "write_bytes"@),
        ("unlink("@, "unlink"@),
        ("subprocess."@, "subprocess"@),
        ("os.system"@, "os.system"@),
        ("os.remove"@, "os.remove"@),
        ("os.rename"@, "os.rename"@),
        ("os.replace"@, "os.replace"@),
        ("shutil.rmtree"@, "shutil.rmtree"@),
        ("shutil.move"@, "shutil.move"@),
    ]
}

/// The labels of the table's needles found in `s`, in table order.
pub open spec fn found_labels(table: Seq<(Seq<char>, Seq<char>)>, s: Seq<char>) -> Seq<Seq<char>>
    decreases table.len(),
{
    if table.len() == 0 {
        Seq::empty()
    } else {
        let prev = found_labels(table.drop_last(), s);
        if contains(s, table.last().0) {
            prev.push(table.last().1)
        } else {
            prev
        }
    }
}

pub open spec fn unsafe_calls(s: Seq<char>) -> Seq<Seq<char>> {
    found_labels(unsafe_needles(), s)
}

pub open spec fn pair_views(v: Seq<(&'static str, &'static str)>) -> Seq<(Seq<char>, Seq<char>)> {
    v.map_values(|p: (&'static str, &'static str)| (p.0@, p.1@))
}

fn unsafe_table() -> (r: Vec<(&'static str, &'static str)>)
    ensures
        pair_views(r@) == unsafe_needles(),
{
    let r = vec![
        ("open(", "open"),
        ("open (", "open"),
        ("io.open", "io.open"),
        ("Path(", "Path"),
        ("Path (", "Path"),
        ("write_text(", "write_text"),
        ("write_bytes(", "write_bytes"),
        ("unlink(", "unlink"),
        ("subprocess.", "subprocess"),
        ("os.system", "os.system"),
        ("os.remove", "os.remove"),
        ("os.rename", "os.rename"),
        ("os.replace", "os.replace"),
        ("shutil.rmtree", "shutil.rmtree"),
        ("shutil.move", "shutil.move"),
    ];
    proof {
        assert(pair_views(r@) =~= unsafe_needles());
    }
    r
}

/// The unsafe calls a source makes, by label, in table order.
pub fn unsafe_calls_exec(s: &[char]) -> (r: Vec<&'static str>)
    ensures
        str_seq_views(r@) == unsafe_calls(s@),
{
    let table = unsafe_table();
    let mut r: Vec<&'static str> = Vec::new();
    let mut i: usize = 0;
    proof {
        assert(pair_views(table@).take(0) =~= Seq::<(Seq<char>, Seq<char>)>::empty());
        assert(str_seq_views(r@) =~= Seq::<Seq<char>>::empty());
    }
    while i < table.len()
        invariant
            i <= table.len(),
            pair_views(table@) == unsafe_needles(),
            str_seq_views(r@) == found_labels(pair_views(table@).take(i as int), s@),
        decreases table.len() - i,
    {
        proof {
            assert(pair_views(table@).take(i + 1).drop_last() =~= pair_views(table@).take(i as int));
            assert(pair_views(table@).take(i + 1).last() == (table@[i as int].0@, table@[i as int].1@));
        }
        let (needle, label) = table[i];
        if contains_lit(s, needle) {
            let ghost before = str_seq_views(r@);
            r.push(label);
            proof {
                assert(str_seq_views(r@) =~= before.push(label@));
            }
        }
        i = i + 1;
    }
    proof {
        assert(pair_views(table@).take(table@.len() as int) =~= pair_views(table@));
    }
    r
}

// ---------------------------------------------------------------------------
// Imports

/// The text up to its first white space.
pub open spec fn first_token(s: Seq<char>) -> Seq<char>
    decreases s.len(),
{
    if s.len() == 0 || is_ws(s[0]) {
        Seq::empty()
    } else {
        seq![s[0]] + first_token(s.drop_first())
    }
}

/// The text before the first `c`, or all of it.
pub open spec fn before_char(s: Seq<char>, c: char) -> Seq<char> {
    match index_of_char(s, c) {
        Some(i) => s.take(i),
        None => s,
    }
}

/// Folders of the project that model code may not import from.
pub open spec fn is_project_root(r: Seq<char>) -> bool {
    r == "chats"@ || r == "plans"@ || r == "outputs"@ || r == ".budn_staging"@ || r == "docs"@
        || r == "target"@ || r == "node_modules"@
}

/// A module path whose root package is a project folder.
pub open spec fn invalid_import_root(module: Seq<char>) -> bool {
    is_project_root(before_char(first_token(trim(module)), '.'))
}

pub open spec fn any_invalid_root(pieces: Seq<Seq<char>>) -> bool {
    exists|k: int| 0 <= k < pieces.len() && invalid_import_root(#[trigger] pieces[k])
}

/// The module of `from <module> import ...`.
pub open spec fn from_module(t: Seq<char>) -> Option<Seq<char>> {
    match strip_prefix(t, "from "@) {
        Some(rest) => match find(rest, " import "@) {
            Some(k) => Some(rest.take(k)),
            None => None,
        },
        None => None,
    }
}

/// A line that imports from a project folder, trimmed; relative imports
/// count too.
pub open spec fn invalid_project_import_line(line: Seq<char>) -> Option<Seq<char>> {
    let t = trim(line);
    if starts_with(t, "from ."@) {
        Some(t)
    } else if strip_prefix(t, "from "@) is Some {
        match from_module(t) {
            Some(m) => if invalid_import_root(m) {
                Some(t)
            } else {
                None
            },
            None => None,
        }
    } else {
        match strip_prefix(t, "import "@) {
            None => None,
            Some(modules) => if any_invalid_root(split(modules, ',')) {
                Some(t)
            } else {
                None
            },
        }
    }
}

/// The model file a line imports from a model folder, as a path.
pub open spec fn local_dependency_line(line: Seq<char>) -> Option<Seq<char>> {
    let t = trim(line);
    let module = match from_module(t) {
        Some(m) => Some(m),
        None => strip_prefix(t, "import "@),
    };
    match module {
        None => None,
        Some(m) => if is_model_root(before_char(m, '.')) {
            Some(replace_char(m, '.', '/') + ".py"@)
        } else {
            None
        },
    }
}

/// What a line-wise finder yields over lines, in order.
pub open spec fn import_findings(ls: Seq<Seq<char>>) -> Seq<Seq<char>>
    decreases ls.len(),
{
    if ls.len() == 0 {
        Seq::empty()
    } else {
        let prev = import_findings(ls.drop_last());
        match invalid_project_import_line(ls.last()) {
            Some(x) => prev.push(x),
            None => prev,
        }
    }
}

pub open spec fn dependency_findings(ls: Seq<Seq<char>>) -> Seq<Seq<char>>
    decreases ls.len(),
{
    if ls.len() == 0 {
        Seq::empty()
    } else {
        let prev = dependency_findings(ls.drop_last());
        match local_dependency_line(ls.last()) {
            Some(x) => prev.push(x),
            None => prev,
        }
    }
}

fn first_token_exec(s: &[char]) -> (r: Vec<char>)
    ensures
        r@ == first_token(s@),
{
    let mut k: usize = 0;
    while k < s.len() && !is_ws_exec(s[k])
        invariant
            k <= s.len(),
            forall|j: int| 0 <= j < k ==> !is_ws(s@[j]),
        decreases s.len() - k,
    {
        k = k + 1;
    }
    proof {
        lemma_first_token(s@, k as int);
    }
    slice_vec(s, 0, k)
}

proof fn lemma_first_token(s: Seq<char>, k: int)
    requires
        0 <= k <= s.len(),
        forall|j: int| 0 <= j < k ==> !is_ws(s[j]),
        k == s.len() || is_ws(s[k]),
    ensures
        first_token(s) == s.take(k),
    decreases k,
{
    if k == 0 {
        assert(s.take(0) =~= Seq::<char>::empty());
    } else {
        lemma_first_token(s.drop_first(), k - 1);
        assert(s.take(k) =~= seq![s[0]] + s.drop_first().take(k - 1));
    }
}

fn before_char_exec(s: &[char], c: char) -> (r: Vec<char>)
    ensures
        r@ == before_char(s@, c),
{
    match index_of_char_exec(s, c) {
        Some(i) => slice_vec(s, 0, i),
        None => slice_vec(s, 0, s.len()),
    }
}

fn is_project_root_exec(r: &[char]) -> (b: bool)
    ensures
        b == is_project_root(r@),
{
    crate::text::eq_lit(r, "chats") || crate::text::eq_lit(r, "plans") || crate::text::eq_lit(r, "outputs")
        || crate::text::eq_lit(r, ".budn_staging") || crate::text::eq_lit(r, "docs")
        || crate::text::eq_lit(r, "target") || crate::text::eq_lit(r, "node_modules")
}

/// Whether a module's root package is a project folder.
pub fn invalid_import_root_exec(module: &[char]) -> (r: bool)
    ensures
        r == invalid_import_root(module@),
{
    let t = trim_exec(module);
    let tok = first_token_exec(&t);
    let root = before_char_exec(&tok, '.');
    is_project_root_exec(&root)
}

fn from_module_exec(t: &[char]) -> (r: Option<Vec<char>>)
    ensures
        match r {
            Some(m) => from_module(t@) == Some(m@),
            None => from_module(t@) is None,
        },
{
    match strip_prefix_lit(t, "from ") {
        Some(rest) => {
            let pat = chars_of(" import ");
            match find_exec(&rest, &pat) {
                Some(k) => Some(slice_vec(&rest, 0, k)),
                None => None,
            }
        },
        None => None,
    }
}

/// The trimmed line when it imports from a project folder.
pub fn invalid_project_import_line_exec(line: &[char]) -> (r: Option<Vec<char>>)
    ensures
        match r {
            Some(x) => invalid_project_import_line(line@) == Some(x@),
            None => invalid_project_import_line(line@) is None,
        },
{
    let t = trim_exec(line);
    if starts_with_lit(&t, "from .") {
        return Some(t);
    }
    if strip_prefix_lit(&t, "from ").is_some() {
        return match from_module_exec(&t) {
            Some(m) => if invalid_import_root_exec(&m) {
                Some(t)
            } else {
                None
            },
            None => None,
        };
    }
    match strip_prefix_lit(&t, "import ") {
        None => None,
        Some(modules) => {
            let pieces = split_exec(&modules, ',');
            let mut k: usize = 0;
            while k < pieces.len()
                invariant
                    k <= pieces.len(),
                    t@ == trim(line@),
                    !starts_with(t@, "from ."@),
                    strip_prefix(t@, "from "@) is None,
                    strip_prefix(t@, "import "@) == Some(modules@),
                    views(pieces@) == split(modules@, ','),
                    forall|j: int| 0 <= j < k ==> !invalid_import_root(#[trigger] views(pieces@)[j]),
                decreases pieces.len() - k,
            {
                if invalid_import_root_exec(&pieces[k]) {
                    proof {
                        assert(invalid_import_root(views(pieces@)[k as int]));
                    }
                    return Some(t);
                }
                k = k + 1;
            }
            None
        },
    }
}

/// The model file path a line imports, when it imports one.
pub fn local_dependency_line_exec(line: &[char]) -> (r: Option<Vec<char>>)
    ensures
        match r {
            Some(x) => local_dependency_line(line@) == Some(x@),
            None => local_dependency_line(line@) is None,
        },
{
    let t = trim_exec(line);
    let module = match from_module_exec(&t) {
        Some(m) => Some(m),
        None => strip_prefix_lit(&t, "import "),
    };
    match module {
        None => None,
        Some(m) => {
            let root = before_char_exec(&m, '.');
            if is_model_root_exec(&root) {
                let mut p = replace_char_exec(&m, '.', '/');
                append_lit(&mut p, ".py");
                Some(p)
            } else {
                None
            }
        },
    }
}

/// The invalid project imports of a source: sorted, each once.
pub fn invalid_project_imports(source: &[char]) -> (r: Vec<String>)
    ensures
        strictly_sorted(string_views(r@)),
        string_views(r@).to_set() == import_findings(lines(source@)).to_set(),
{
    let ls = lines_exec(source);
    let mut r: Vec<String> = Vec::new();
    let mut i: usize = 0;
    proof {
        assert(views(ls@).take(0) =~= Seq::<Seq<char>>::empty());
        assert(string_views(r@).to_set() =~= Set::<Seq<char>>::empty());
        assert(import_findings(Seq::<Seq<char>>::empty()).to_set() =~= Set::<Seq<char>>::empty());
    }
    while i < ls.len()
        invariant
            i <= ls.len(),
            views(ls@) == lines(source@),
            strictly_sorted(string_views(r@)),
            string_views(r@).to_set() == import_findings(views(ls@).take(i as int)).to_set(),
        decreases ls.len() - i,
    {
        proof {
            assert(views(ls@).take(i + 1).drop_last() =~= views(ls@).take(i as int));
            assert(views(ls@).take(i + 1).last() == ls@[i as int]@);
        }
        match invalid_project_import_line_exec(&ls[i]) {
            Some(x) => {
                insert_sorted_unique(&mut r, string_of(&x));
                proof {
                    let f = import_findings(views(ls@).take(i as int));
                    lemma_push_to_set(f, x@);
                }
            },
            None => {},
        }
        i = i + 1;
    }
    proof {
        assert(views(ls@).take(ls@.len() as int) =~= views(ls@));
    }
    r
}

/// The model files a source imports, as paths: sorted, each once.
pub fn local_dependencies(source: &[char]) -> (r: Vec<String>)
    ensures
        strictly_sorted(string_views(r@)),
        string_views(r@).to_set() == dependency_findings(lines(source@)).to_set(),
{
    let ls = lines_exec(source);
    let mut r: Vec<String> = Vec::new();
    let mut i: usize = 0;
    proof {
        assert(views(ls@).take(0) =~= Seq::<Seq<char>>::empty());
        assert(string_views(r@).to_set() =~= Set::<Seq<char>>::empty());
        assert(dependency_findings(Seq::<Seq<char>>::empty()).to_set() =~= Set::<Seq<char>>::empty());
    }
    while i < ls.len()
        invariant
            i <= ls.len(),
            views(ls@) == lines(source@),
            strictly_sorted(string_views(r@)),
            string_views(r@).to_set() == dependency_findings(views(ls@).take(i as int)).to_set(),
        decreases ls.len() - i,
    {
        proof {
            assert(views(ls@).take(i + 1).drop_last() =~= views(ls@).take(i as int));
            assert(views(ls@).take(i + 1).last() == ls@[i as int]@);
        }
        match local_dependency_line_exec(&ls[i]) {
            Some(x) => {
                insert_sorted_unique(&mut r, string_of(&x));
                proof {
                    let f = dependency_findings(views(ls@).take(i as int));
                    lemma_push_to_set(f, x@);
                }
            },
            None => {},
        }
        i = i + 1;
    }
    proof {
        assert(views(ls@).take(ls@.len() as int) =~= views(ls@));
    }
    r
}

// ---------------------------------------------------------------------------
// The contract

/// What the static checks found in a model source.
#[derive(Debug, Clone, PartialEq, Eq)]
pub struct SourceContract {
    pub target_type_matches: bool,
    pub has_build_function: bool,
    pub has_refs: bool,
    pub has_model_description: bool,
    pub unsafe_calls: Vec<&'static str>,
    pub invalid_imports: Vec<String>,
}

/// The object type a source is taken to be: what `REFS` declares, else
/// what its path implies.
pub open spec fn effective_type(path: Seq<char>, source: Seq<char>) -> CadQueryObjectKind {
    match declared_type(source) {
        Some(k) => k,
        None => target_type_from_path(path),
    }
}

/// The contract of a model source at `path`, expected to be of a type.
pub fn source_contract(path: &str, expected_type: CadQueryObjectKind, source: &str) -> (r: SourceContract)
    ensures
        r.target_type_matches == (effective_type(path@, source@) == expected_type),
        r.has_build_function == has_build_function(source@),
        r.has_refs == has_refs(source@),
        r.has_model_description == has_model_description(source@),
        str_seq_views(r.unsafe_calls@) == unsafe_calls(source@),
        strictly_sorted(string_views(r.invalid_imports@)),
        string_views(r.invalid_imports@).to_set() == import_findings(lines(source@)).to_set(),
{
    let p = chars_of(path);
    let s = chars_of(source);
    let kind = match declared_type_exec(&s) {
        Some(k) => k,
        None => target_type_from_path_exec(&p),
    };
    SourceContract {
        target_type_matches: kind == expected_type,
        has_build_function: has_build_function_exec(&s),
        has_refs: has_refs_exec(&s),
        has_model_description: has_model_description_exec(&s),
        unsafe_calls: unsafe_calls_exec(&s),
        invalid_imports: invalid_project_imports(&s),
    }
}

pub open spec fn flag(b: bool, w: Seq<char>) -> Seq<Seq<char>> {
    if b {
        seq![w]
    } else {
        Seq::empty()
    }
}

fn push_if(v: &mut Vec<&'static str>, b: bool, w: &'static str)
    ensures
        str_seq_views(final(v)@) == str_seq_views(old(v)@) + flag(b, w@),
{
    let ghost before = str_seq_views(v@);
    if b {
        v.push(w);
        proof {
            assert(str_seq_views(v@) =~= before + seq![w@]);
        }
    } else {
        proof {
            assert(before + flag(b, w@) =~= before);
        }
    }
}

/// The warnings a contract gives, in a fixed order.
pub open spec fn contract_warnings_of(c: SourceContract) -> Seq<Seq<char>> {
    flag(!c.has_build_function, "missing build function"@) + flag(
        !c.has_refs,
        "missing REFS.features; add REFS = {\"type\":\"part\",\"features\":{...}} with stable feature keys chosen from this model's semantics"@,
    ) + flag(
        !c.has_model_description,
        "missing MODEL_DESCRIPTION / MODEL_DETAILS; add purpose, key_dimensions, intended_use, assumptions, interaction_notes, and manufacturing_or_placement_constraints"@,
    ) + flag(!c.target_type_matches, "target type does not match REFS type"@) + flag(
        c.invalid_imports@.len() > 0,
        "invalid project-local import"@,
    ) + flag(c.unsafe_calls@.len() > 0, "unsafe call detected"@)
}

/// The warnings of a contract.
pub fn contract_warnings(contract: &SourceContract) -> (r: Vec<&'static str>)
    ensures
        str_seq_views(r@) == contract_warnings_of(*contract),
{
    let mut w: Vec<&'static str> = Vec::new();
    proof {
        assert(str_seq_views(w@) =~= Seq::<Seq<char>>::empty());
    }
    push_if(&mut w, !contract.has_build_function, "missing build function");
    push_if(
        &mut w,
        !contract.has_refs,
        "missing REFS.features; add REFS = {\"type\":\"part\",\"features\":{...}} with stable feature keys chosen from this model's semantics",
    );
    push_if(
        &mut w,
        !contract.has_model_description,
        "missing MODEL_DESCRIPTION / MODEL_DETAILS; add purpose, key_dimensions, intended_use, assumptions, interaction_notes, and manufacturing_or_placement_constraints",
    );
    push_if(&mut w, !contract.target_type_matches, "target type does not match REFS type");
    push_if(&mut w, contract.invalid_imports.len() > 0, "invalid project-local import");
    push_if(&mut w, contract.unsafe_calls.len() > 0, "unsafe call detected");
    proof {
        assert(str_seq_views(w@) =~= contract_warnings_of(*contract));
    }
    w
}

/// What is missing from a contract, in a fixed order.
pub open spec fn contract_failures_of(c: SourceContract) -> Seq<Seq<char>> {
    flag(!c.has_build_function, "missing build(params=None)"@) + flag(
        !c.has_refs,
        "missing REFS.features"@,
    ) + flag(!c.target_type_matches, "REFS.type does not match target_type"@) + flag(
        c.invalid_imports@.len() > 0,
        "invalid imports"@,
    ) + flag(c.unsafe_calls@.len() > 0, "unsafe calls"@)
}

/// What is missing from a contract, joined with `", "`.
pub fn contract_failure_summary(contract: &SourceContract) -> (r: String)
    ensures
        r@ == join_with(contract_failures_of(*contract), ", "@),
{
    let mut m: Vec<&'static str> = Vec::new();
    proof {
        assert(str_seq_views(m@) =~= Seq::<Seq<char>>::empty());
    }
    push_if(&mut m, !contract.has_build_function, "missing build(params=None)");
    push_if(&mut m, !contract.has_refs, "missing REFS.features");
    push_if(&mut m, !contract.target_type_matches, "REFS.type does not match target_type");
    push_if(&mut m, contract.invalid_imports.len() > 0, "invalid imports");
    push_if(&mut m, contract.unsafe_calls.len() > 0, "unsafe calls");
    proof {
        assert(str_seq_views(m@) =~= contract_failures_of(*contract));
    }
    string_of(&join_strs(&m, ", "))
}

/// The warnings of a source analysis.
pub open spec fn analyze_warnings_of(source: Seq<char>, has_description: bool) -> Seq<Seq<char>> {
    flag(!has_build_function(source), "missing build function"@) + flag(
        !has_refs(source),
        "missing REFS features"@,
    ) + flag(!has_description, "missing MODEL_DESCRIPTION / MODEL_DETAILS"@)
}

pub fn analyze_warnings(source: &[char], has_model_description: bool) -> (r: Vec<&'static str>)
    ensures
        str_seq_views(r@) == analyze_warnings_of(source@, has_model_description),
{
    let mut w: Vec<&'static str> = Vec::new();
    proof {
        assert(str_seq_views(w@) =~= Seq::<Seq<char>>::empty());
    }
    push_if(&mut w, !has_build_function_exec(source), "missing build function");
    push_if(&mut w, !has_refs_exec(source), "missing REFS features");
    push_if(&mut w, !has_model_description, "missing MODEL_DESCRIPTION / MODEL_DETAILS");
    proof {
        assert(str_seq_views(w@) =~= analyze_warnings_of(source@, has_model_description));
    }
    w
}

} // verus!
