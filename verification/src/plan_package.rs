//! CAD plan packages: identifiers, file layout and Markdown rendering.
//!
//! A package lives in `plans/<plan_id>/` and holds `request.md`, `plan.md`
//! and `plan-result.md`. A plan id is `YYYYmmddnn-slug`: the date, a
//! two-digit daily sequence and a slug of the title.
use vstd::prelude::*;
use crate::model::{CadQueryObjectKind, kind_label, target_type_label};
use crate::workspace_path::{lemma_split_append_free, lemma_split_push_sep};
use crate::text::{
    append_chars, append_lit, ascii_lower, chars_of, eq_lit, is_ascii_alnum, is_ascii_alnum_exec,
    is_ascii_digit, is_ascii_digit_exec, lines, lines_exec, slice_vec, split, split_exec,
    starts_with, starts_with_exec, strip_prefix, string_of, trim, trim_char, trim_char_end,
    trim_char_exec, trim_char_start, trim_exec, views,
};

verus! {

/// An error of the plan package rules: a message and an error type.
#[derive(Debug, Clone, PartialEq, Eq)]
pub struct PlanPackageError {
    pub message: String,
    pub error_type: &'static str,
}

impl View for PlanPackageError {
    type V = (Seq<char>, Seq<char>);

    open spec fn view(&self) -> (Seq<char>, Seq<char>) {
        (self.message@, self.error_type@)
    }
}

impl PlanPackageError {
    /// An error with the given message and type.
    pub fn new(message: String, error_type: &'static str) -> (r: Self)
        ensures
            r@ == (message@, error_type@),
    {
        PlanPackageError { message, error_type }
    }

    /// An error with a message held as characters.
    pub fn from_chars(message: &[char], error_type: &'static str) -> (r: Self)
        ensures
            r@ == (message@, error_type@),
    {
        PlanPackageError { message: string_of(message), error_type }
    }
}

/// The date prefix and creation time that a package is saved with.
#[derive(Debug, Clone, PartialEq, Eq)]
pub struct PlanTimestamp {
    pub date_prefix: String,
    pub created_at: String,
}

/// What a CAD plan is saved from.
#[derive(Debug, Clone, PartialEq, Eq)]
pub struct SaveCadPlanPackageInput {
    pub title: String,
    pub request: String,
    pub target_ref: String,
    pub target_path: String,
    pub target_type: CadQueryObjectKind,
    pub affected_files: Vec<String>,
    pub new_files: Vec<String>,
    pub export_targets: Vec<String>,
    pub strategy: String,
    pub risks: Vec<String>,
    pub acceptance: Vec<String>,
    pub execution_scope: String,
    pub source_chat_session: Option<String>,
}

/// The workspace-relative paths of a package.
#[derive(Debug, Clone, PartialEq, Eq)]
pub struct PlanPackagePaths {
    pub plan_id: String,
    pub plan_ref: String,
    pub request_path: String,
    pub plan_path: String,
    pub result_path: String,
}

/// A package that was saved.
#[derive(Debug, Clone, PartialEq, Eq)]
pub struct SavedPlanPackage {
    pub paths: PlanPackagePaths,
    pub hash_source: String,
    pub plan_status: String,
}

/// A package read back from the workspace.
#[derive(Debug, Clone, PartialEq, Eq)]
pub struct ParsedPlanPackage {
    pub plan_id: String,
    pub plan_ref: String,
    pub request_path: String,
    pub plan_path: String,
    pub result_path: String,
    pub title: String,
    pub status: String,
    pub target_path: String,
    pub target_type: CadQueryObjectKind,
    pub affected_files: Vec<String>,
    pub new_files: Vec<String>,
    pub export_targets: Vec<String>,
}

pub open spec fn string_views(v: Seq<String>) -> Seq<Seq<char>> {
    v.map_values(|x: String| x@)
}

// ---------------------------------------------------------------------------
// Slugs

/// What `char::to_lowercase` yields for a character.
pub uninterp spec fn lowercase_of(c: char) -> Seq<char>;

/// `char::to_lowercase`, collected. For an ASCII character it yields the
/// ASCII lowercase letter (capitals) or the character itself; the mapping of
/// other characters follows the Unicode tables and is left to the name.
#[verifier::external_body]
fn char_to_lowercase(c: char) -> (r: Vec<char>)
    ensures
        r@ == lowercase_of(c),
        (c as u32) < 128 ==> r@ == seq![ascii_lower(c)],
{
    c.to_lowercase().collect()
}

/// The lowercase mapping of a character: its ASCII lowercase for an ASCII
/// character, the Unicode mapping otherwise.
pub open spec fn lower_char(c: char) -> Seq<char> {
    if (c as u32) < 128 {
        seq![ascii_lower(c)]
    } else {
        lowercase_of(c)
    }
}

/// The lowercase mapping of every character, in order.
pub open spec fn lower_all(t: Seq<char>) -> Seq<char>
    decreases t.len(),
{
    if t.len() == 0 {
        Seq::<char>::empty()
    } else {
        lower_all(t.drop_last()) + lower_char(t.last())
    }
}

/// One character of slug building: letters and digits are kept, any run of
/// other characters becomes one `'-'`.
pub open spec fn slug_step(s: Seq<char>, c: char) -> Seq<char> {
    if is_ascii_alnum(c) {
        s.push(c)
    } else if s.len() > 0 && s.last() == '-' {
        s
    } else {
        s.push('-')
    }
}

pub open spec fn slug_build(l: Seq<char>) -> Seq<char>
    decreases l.len(),
{
    if l.len() == 0 {
        Seq::<char>::empty()
    } else {
        slug_step(slug_build(l.drop_last()), l.last())
    }
}

/// The slug of a plan title: lowercase, runs of other characters as single
/// hyphens, no hyphen at either end, and `cad-plan` when nothing is left.
pub open spec fn slugify(title: Seq<char>) -> Seq<char> {
    let s = trim_char(slug_build(lower_all(title)), '-');
    if s.len() == 0 {
        "cad-plan"@
    } else {
        s
    }
}

/// The slug of a plan title.
pub fn slugify_plan_title(title: &str) -> (r: String)
    ensures
        r@ == slugify(title@),
{
    let t = chars_of(title);
    let mut slug: Vec<char> = Vec::new();
    let mut i: usize = 0;
    proof {
        assert(t@.take(0) =~= Seq::<char>::empty());
    }
    while i < t.len()
        invariant
            i <= t.len(),
            t@ == title@,
            slug@ == slug_build(lower_all(t@.take(i as int))),
        decreases t.len() - i,
    {
        let lc = char_to_lowercase(t[i]);
        assert(lc@ == lower_char(t@[i as int]));
        let ghost base = lower_all(t@.take(i as int));
        let mut j: usize = 0;
        proof {
            assert(base + lc@.take(0) =~= base);
        }
        while j < lc.len()
            invariant
                j <= lc.len(),
                slug@ == slug_build(base + lc@.take(j as int)),
            decreases lc.len() - j,
        {
            let c = lc[j];
            proof {
                let nxt = base + lc@.take(j + 1);
                assert(nxt.drop_last() =~= base + lc@.take(j as int));
                assert(nxt.last() == c);
            }
            if is_ascii_alnum_exec(c) {
                slug.push(c);
            } else if slug.len() > 0 && slug[slug.len() - 1] == '-' {
            } else {
                slug.push('-');
            }
            j = j + 1;
        }
        proof {
            assert(lc@.take(lc@.len() as int) =~= lc@);
            assert(t@.take(i + 1).drop_last() =~= t@.take(i as int));
            assert(t@.take(i + 1).last() == t@[i as int]);
        }
        i = i + 1;
    }
    proof {
        assert(t@.take(t@.len() as int) =~= t@);
    }
    let trimmed = trim_char_exec(&slug, '-');
    if trimmed.len() == 0 {
        "cad-plan".to_owned()
    } else {
        string_of(&trimmed)
    }
}

// ---------------------------------------------------------------------------
// Daily sequences and identifiers

/// The number that two characters spell as `u8::from_str` reads them.
pub open spec fn parse_two(a: char, b: char) -> Option<u8> {
    if a == '+' && is_ascii_digit(b) {
        Some(((b as u32) - ('0' as u32)) as u8)
    } else if is_ascii_digit(a) && is_ascii_digit(b) {
        Some((((a as u32) - ('0' as u32)) * 10 + ((b as u32) - ('0' as u32))) as u8)
    } else {
        None
    }
}

/// The daily sequence of a package directory name for a date prefix.
pub open spec fn sequence_for_date(name: Seq<char>, date_prefix: Seq<char>) -> Option<u8> {
    match strip_prefix(name, date_prefix) {
        Some(rest) => if rest.len() >= 3 && rest[2] == '-' {
            parse_two(rest[0], rest[1])
        } else {
            None
        },
        None => None,
    }
}

fn digit_value(c: char) -> (r: u8)
    requires
        is_ascii_digit(c),
    ensures
        r as int == (c as u32) - ('0' as u32),
{
    let v: u32 = (c as u32) - ('0' as u32);
    v as u8
}

/// The daily sequence of a package directory name for a date prefix.
pub fn sequence_for_date_exec(name: &[char], date_prefix: &[char]) -> (r: Option<u8>)
    ensures
        r == sequence_for_date(name@, date_prefix@),
{
    if !starts_with_exec(name, date_prefix) {
        return None;
    }
    let rest = slice_vec(name, date_prefix.len(), name.len());
    if rest.len() < 3 || rest[2] != '-' {
        return None;
    }
    let a = rest[0];
    let b = rest[1];
    if a == '+' && is_ascii_digit_exec(b) {
        Some(digit_value(b))
    } else if is_ascii_digit_exec(a) && is_ascii_digit_exec(b) {
        let x = digit_value(a);
        let y = digit_value(b);
        Some(x * 10 + y)
    } else {
        None
    }
}

/// The largest daily sequence among directory names.
pub open spec fn max_sequence(names: Seq<Seq<char>>, date_prefix: Seq<char>) -> Option<u8>
    decreases names.len(),
{
    if names.len() == 0 {
        None
    } else {
        let rest = max_sequence(names.drop_last(), date_prefix);
        match sequence_for_date(names.last(), date_prefix) {
            Some(s) => match rest {
                Some(m) => Some(if m >= s { m } else { s }),
                None => Some(s),
            },
            None => rest,
        }
    }
}

/// The next free daily sequence: one past the largest, or zero; at most 99.
pub open spec fn next_daily_sequence(names: Seq<Seq<char>>, date_prefix: Seq<char>) -> Result<
    u8,
    (Seq<char>, Seq<char>),
> {
    let next: int = match max_sequence(names, date_prefix) {
        Some(m) => m + 1,
        None => 0,
    };
    if next <= 99 {
        Ok(next as u8)
    } else {
        Err(("daily plan sequence is exhausted"@, "file_conflict"@))
    }
}

pub proof fn lemma_max_sequence_bound(names: Seq<Seq<char>>, date_prefix: Seq<char>)
    ensures
        max_sequence(names, date_prefix) matches Some(m) ==> m <= 99,
    decreases names.len(),
{
    if names.len() > 0 {
        lemma_max_sequence_bound(names.drop_last(), date_prefix);
    }
}

/// The next free daily sequence among the names of the `plans` directory.
pub fn next_daily_sequence_exec(names: &Vec<String>, date_prefix: &str) -> (r: Result<
    u8,
    PlanPackageError,
>)
    ensures
        match r {
            Ok(n) => next_daily_sequence(string_views(names@), date_prefix@) == Ok::<
                u8,
                (Seq<char>, Seq<char>),
            >(n),
            Err(e) => next_daily_sequence(string_views(names@), date_prefix@) == Err::<
                u8,
                (Seq<char>, Seq<char>),
            >(e@),
        },
{
    let prefix = chars_of(date_prefix);
    let mut max_seen: Option<u8> = None;
    let mut i: usize = 0;
    proof {
        assert(string_views(names@).take(0) =~= Seq::<Seq<char>>::empty());
    }
    while i < names.len()
        invariant
            i <= names.len(),
            prefix@ == date_prefix@,
            max_seen == max_sequence(string_views(names@).take(i as int), date_prefix@),
        decreases names.len() - i,
    {
        let name = chars_of(names[i].as_str());
        let seq = sequence_for_date_exec(&name, &prefix);
        proof {
            assert(string_views(names@).take(i + 1).drop_last() =~= string_views(names@).take(i as int));
            assert(string_views(names@).take(i + 1).last() == names@[i as int]@);
        }
        match seq {
            Some(s) => {
                max_seen = match max_seen {
                    Some(m) => Some(if m >= s { m } else { s }),
                    None => Some(s),
                };
            },
            None => {},
        }
        i = i + 1;
    }
    proof {
        assert(string_views(names@).take(names@.len() as int) =~= string_views(names@));
        lemma_max_sequence_bound(string_views(names@), date_prefix@);
    }
    match max_seen {
        Some(m) => {
            if m < 99 {
                Ok(m + 1)
            } else {
                Err(PlanPackageError::new("daily plan sequence is exhausted".to_owned(), "file_conflict"))
            }
        },
        None => Ok(0),
    }
}

pub open spec fn digit_char(n: int) -> char {
    (('0' as u32) + n) as char
}

/// A number below 100 written with two digits.
pub open spec fn two_digits(n: u8) -> Seq<char> {
    seq![digit_char(n as int / 10), digit_char(n as int % 10)]
}

fn digit_char_exec(n: u8) -> (r: char)
    requires
        n < 10,
    ensures
        r == digit_char(n as int),
{
    let v: u8 = 48 + n;
    v as char
}

/// The id of a new package: the date prefix, the two-digit sequence, a
/// hyphen and the slug of the title.
pub open spec fn plan_id_for(date_prefix: Seq<char>, next: u8, title: Seq<char>) -> Seq<char> {
    date_prefix + two_digits(next) + seq!['-'] + slugify(title)
}

/// The id of a new package.
pub fn allocate_plan_id(date_prefix: &str, next: u8, title: &str) -> (r: String)
    requires
        next <= 99,
    ensures
        r@ == plan_id_for(date_prefix@, next, title@),
{
    let mut out = chars_of(date_prefix);
    out.push(digit_char_exec(next / 10));
    out.push(digit_char_exec(next % 10));
    out.push('-');
    let slug = slugify_plan_title(title);
    let slug_chars = chars_of(slug.as_str());
    append_chars(&mut out, &slug_chars);
    proof {
        assert(out@ =~= plan_id_for(date_prefix@, next, title@));
    }
    string_of(&out)
}

/// `plans/<id>` and the three files in it.
pub open spec fn package_paths_spec(plan_id: Seq<char>) -> (
    Seq<char>,
    Seq<char>,
    Seq<char>,
    Seq<char>,
    Seq<char>,
) {
    let plan_ref = "plans/"@ + plan_id;
    (
        plan_id,
        plan_ref,
        plan_ref + "/request.md"@,
        plan_ref + "/plan.md"@,
        plan_ref + "/plan-result.md"@,
    )
}

pub open spec fn paths_view(p: PlanPackagePaths) -> (
    Seq<char>,
    Seq<char>,
    Seq<char>,
    Seq<char>,
    Seq<char>,
) {
    (p.plan_id@, p.plan_ref@, p.request_path@, p.plan_path@, p.result_path@)
}

/// The paths of the package with the given id.
pub fn package_paths(plan_id: &str) -> (r: PlanPackagePaths)
    ensures
        paths_view(r) == package_paths_spec(plan_id@),
{
    let mut plan_ref: Vec<char> = Vec::new();
    append_lit(&mut plan_ref, "plans/");
    let id = chars_of(plan_id);
    append_chars(&mut plan_ref, &id);
    let mut request = plan_ref.clone();
    append_lit(&mut request, "/request.md");
    let mut plan = plan_ref.clone();
    append_lit(&mut plan, "/plan.md");
    let mut result = plan_ref.clone();
    append_lit(&mut result, "/plan-result.md");
    PlanPackagePaths {
        plan_id: plan_id.to_owned(),
        plan_ref: string_of(&plan_ref),
        request_path: string_of(&request),
        plan_path: string_of(&plan),
        result_path: string_of(&result),
    }
}

/// Ten ASCII digits, a hyphen, and at least one more character.
pub open spec fn looks_like_plan_id(v: Seq<char>) -> bool {
    v.len() >= 12 && (forall|i: int| 0 <= i < 10 ==> is_ascii_digit(#[trigger] v[i])) && v[10] == '-'
}

/// Whether a directory name looks like a plan id.
pub fn looks_like_plan_id_exec(v: &[char]) -> (r: bool)
    ensures
        r == looks_like_plan_id(v@),
{
    if v.len() < 12 {
        return false;
    }
    let mut i: usize = 0;
    while i < 10
        invariant
            i <= 10,
            v.len() >= 12,
            forall|j: int| 0 <= j < i ==> is_ascii_digit(#[trigger] v@[j]),
        decreases 10 - i,
    {
        if !is_ascii_digit_exec(v[i]) {
            return false;
        }
        i = i + 1;
    }
    v[10] == '-'
}

/// The plan id named by a normalized `plans/<id>` reference.
pub open spec fn plan_id_from_ref(plan_ref: Seq<char>) -> Result<Seq<char>, (Seq<char>, Seq<char>)> {
    let parts = split(plan_ref, '/');
    if parts.len() == 2 && parts[0] == "plans"@ && looks_like_plan_id(parts[1]) {
        Ok(parts[1])
    } else {
        Err(("plan_ref must be plans/YYYYmmddnn-name"@, "invalid_arguments"@))
    }
}

/// The plan id named by a normalized `plans/<id>` reference.
pub fn plan_id_from_ref_exec(plan_ref: &[char]) -> (r: Result<Vec<char>, PlanPackageError>)
    ensures
        match r {
            Ok(v) => plan_id_from_ref(plan_ref@) == Ok::<Seq<char>, (Seq<char>, Seq<char>)>(v@),
            Err(e) => plan_id_from_ref(plan_ref@) == Err::<Seq<char>, (Seq<char>, Seq<char>)>(e@),
        },
{
    let parts = split_exec(plan_ref, '/');
    proof {
        assert(views(parts@).len() == parts@.len());
    }
    if parts.len() == 2 {
        proof {
            assert(views(parts@)[0] == parts@[0]@);
            assert(views(parts@)[1] == parts@[1]@);
        }
        if eq_lit(parts[0].as_slice(), "plans") && looks_like_plan_id_exec(parts[1].as_slice()) {
            proof {
                assert(parts@[1]@.subrange(0, parts@[1]@.len() as int) =~= parts@[1]@);
            }
            return Ok(slice_vec(parts[1].as_slice(), 0, parts[1].len()));
        }
    }
    Err(PlanPackageError::new("plan_ref must be plans/YYYYmmddnn-name".to_owned(), "invalid_arguments"))
}

// ---------------------------------------------------------------------------
// Titles

/// The first line that starts with `# CAD Plan: `, without that prefix.
pub open spec fn first_title_line(ls: Seq<Seq<char>>) -> Option<Seq<char>>
    decreases ls.len(),
{
    if ls.len() == 0 {
        None
    } else if starts_with(ls[0], "# CAD Plan: "@) {
        Some(ls[0].subrange("# CAD Plan: "@.len() as int, ls[0].len() as int))
    } else {
        first_title_line(ls.drop_first())
    }
}

/// The plan title of a `plan.md`: the trimmed rest of the first
/// `# CAD Plan: ` line, when that is not empty.
pub open spec fn extract_plan_title(markdown: Seq<char>) -> Option<Seq<char>> {
    match first_title_line(lines(markdown)) {
        Some(t) => if trim(t).len() > 0 {
            Some(trim(t))
        } else {
            None
        },
        None => None,
    }
}

/// The plan title of a `plan.md`.
pub fn extract_plan_title_exec(markdown: &[char]) -> (r: Option<Vec<char>>)
    ensures
        match r {
            Some(v) => extract_plan_title(markdown@) == Some(v@),
            None => extract_plan_title(markdown@) is None,
        },
{
    let ls = lines_exec(markdown);
    let prefix = chars_of("# CAD Plan: ");
    let mut i: usize = 0;
    proof {
        assert(views(ls@).subrange(0, ls@.len() as int) =~= views(ls@));
    }
    while i < ls.len()
        invariant
            i <= ls.len(),
            prefix@ == "# CAD Plan: "@,
            first_title_line(lines(markdown@)) == first_title_line(views(ls@).subrange(i as int, ls@.len() as int)),
        decreases ls.len() - i,
    {
        let ghost rest = views(ls@).subrange(i as int, ls@.len() as int);
        proof {
            assert(rest[0] == ls@[i as int]@);
            assert(rest.drop_first() =~= views(ls@).subrange(i + 1, ls@.len() as int));
        }
        if starts_with_exec(ls[i].as_slice(), &prefix) {
            let body = slice_vec(ls[i].as_slice(), prefix.len(), ls[i].len());
            let t = trim_exec(&body);
            if t.len() > 0 {
                return Some(t);
            } else {
                return None;
            }
        }
        i = i + 1;
    }
    None
}

// ---------------------------------------------------------------------------
// Markdown rendering

/// `  - item\n` for every item.
pub open spec fn yaml_array(items: Seq<Seq<char>>) -> Seq<char>
    decreases items.len(),
{
    if items.len() == 0 {
        Seq::<char>::empty()
    } else {
        yaml_array(items.drop_last()) + "  - "@ + items.last() + "\n"@
    }
}

/// ` []\n` for no items, else a newline and the YAML list.
pub open spec fn yaml_array_or_empty(items: Seq<Seq<char>>) -> Seq<char> {
    if items.len() == 0 {
        " []\n"@
    } else {
        "\n"@ + yaml_array(items)
    }
}

/// `- item` lines joined by newlines, or `- none`.
pub open spec fn markdown_list(items: Seq<Seq<char>>) -> Seq<char>
    decreases items.len(),
{
    if items.len() == 0 {
        "- none"@
    } else if items.len() == 1 {
        "- "@ + items[0]
    } else {
        markdown_list(items.drop_last()) + "\n- "@ + items.last()
    }
}

pub fn yaml_array_exec(items: &Vec<String>) -> (r: Vec<char>)
    ensures
        r@ == yaml_array(string_views(items@)),
{
    let mut out: Vec<char> = Vec::new();
    let mut i: usize = 0;
    proof {
        assert(string_views(items@).take(0) =~= Seq::<Seq<char>>::empty());
    }
    while i < items.len()
        invariant
            i <= items.len(),
            out@ == yaml_array(string_views(items@).take(i as int)),
        decreases items.len() - i,
    {
        let ghost before = out@;
        append_lit(&mut out, "  - ");
        let item = chars_of(items[i].as_str());
        append_chars(&mut out, &item);
        append_lit(&mut out, "\n");
        proof {
            let t = string_views(items@).take(i + 1);
            assert(t.drop_last() =~= string_views(items@).take(i as int));
            assert(t.last() == items@[i as int]@);
            assert(out@ =~= before + "  - "@ + item@ + "\n"@);
        }
        i = i + 1;
    }
    proof {
        assert(string_views(items@).take(items@.len() as int) =~= string_views(items@));
    }
    out
}

pub fn yaml_array_or_empty_exec(items: &Vec<String>) -> (r: Vec<char>)
    ensures
        r@ == yaml_array_or_empty(string_views(items@)),
{
    if items.len() == 0 {
        chars_of(" []\n")
    } else {
        let mut out = chars_of("\n");
        let body = yaml_array_exec(items);
        append_chars(&mut out, &body);
        out
    }
}

pub fn markdown_list_exec(items: &Vec<String>) -> (r: Vec<char>)
    ensures
        r@ == markdown_list(string_views(items@)),
{
    if items.len() == 0 {
        return chars_of("- none");
    }
    let mut out = chars_of("- ");
    let first = chars_of(items[0].as_str());
    append_chars(&mut out, &first);
    let mut i: usize = 1;
    proof {
        assert(string_views(items@).take(1) =~= seq![items@[0]@]);
    }
    while i < items.len()
        invariant
            1 <= i <= items.len(),
            out@ == markdown_list(string_views(items@).take(i as int)),
        decreases items.len() - i,
    {
        let ghost before = out@;
        append_lit(&mut out, "\n- ");
        let item = chars_of(items[i].as_str());
        append_chars(&mut out, &item);
        proof {
            let t = string_views(items@).take(i + 1);
            assert(t.drop_last() =~= string_views(items@).take(i as int));
            assert(t.last() == items@[i as int]@);
        }
        i = i + 1;
    }
    proof {
        assert(string_views(items@).take(items@.len() as int) =~= string_views(items@));
    }
    out
}

/// The text of `request.md`.
pub open spec fn render_request_markdown(request: Seq<char>, target_ref: Seq<char>) -> Seq<char> {
    "# Request\n\n"@ + trim(request) + "\n\n## Target Ref\n\n"@ + target_ref + "\n"@
}

pub fn render_request_markdown_exec(input: &SaveCadPlanPackageInput) -> (r: String)
    ensures
        r@ == render_request_markdown(input.request@, input.target_ref@),
{
    let mut out = chars_of("# Request\n\n");
    let req = chars_of(input.request.as_str());
    let req_t = trim_exec(&req);
    append_chars(&mut out, &req_t);
    append_lit(&mut out, "\n\n## Target Ref\n\n");
    let tr = chars_of(input.target_ref.as_str());
    append_chars(&mut out, &tr);
    append_lit(&mut out, "\n");
    string_of(&out)
}

pub open spec fn opt_text(o: Option<String>) -> Seq<char> {
    match o {
        Some(s) => s@,
        None => Seq::<char>::empty(),
    }
}

/// The YAML front matter of `plan.md`.
pub open spec fn render_front_matter(
    input: SaveCadPlanPackageInput,
    plan_id: Seq<char>,
    created_at: Seq<char>,
) -> Seq<char> {
    "plan_id: "@ + plan_id + "\nmode: plan\ntarget_path: "@ + input.target_path@ + "\ntarget_type: "@
        + kind_label(input.target_type) + "\naffected_files:\n"@ + yaml_array(
        string_views(input.affected_files@),
    ) + "new_files:\n"@ + yaml_array_or_empty(string_views(input.new_files@)) + "export_targets:\n"@
        + yaml_array(string_views(input.export_targets@)) + "status: planned\ncreated_at: "@
        + created_at + "\nsource_chat_session: "@ + opt_text(input.source_chat_session) + "\n"@
}

pub fn render_front_matter_exec(input: &SaveCadPlanPackageInput, plan_id: &str, created_at: &str) -> (r: Vec<char>)
    ensures
        r@ == render_front_matter(*input, plan_id@, created_at@),
{
    let mut out = chars_of("plan_id: ");
    let id = chars_of(plan_id);
    append_chars(&mut out, &id);
    append_lit(&mut out, "\nmode: plan\ntarget_path: ");
    let tp = chars_of(input.target_path.as_str());
    append_chars(&mut out, &tp);
    append_lit(&mut out, "\ntarget_type: ");
    append_lit(&mut out, target_type_label(input.target_type));
    append_lit(&mut out, "\naffected_files:\n");
    let a = yaml_array_exec(&input.affected_files);
    append_chars(&mut out, &a);
    append_lit(&mut out, "new_files:\n");
    let n = yaml_array_or_empty_exec(&input.new_files);
    append_chars(&mut out, &n);
    append_lit(&mut out, "export_targets:\n");
    let e = yaml_array_exec(&input.export_targets);
    append_chars(&mut out, &e);
    append_lit(&mut out, "status: planned\ncreated_at: ");
    let c = chars_of(created_at);
    append_chars(&mut out, &c);
    append_lit(&mut out, "\nsource_chat_session: ");
    match &input.source_chat_session {
        Some(s) => {
            let sc = chars_of(s.as_str());
            append_chars(&mut out, &sc);
        },
        None => {},
    }
    append_lit(&mut out, "\n");
    out
}

/// The text of `plan.md`.
pub open spec fn render_plan_markdown(
    input: SaveCadPlanPackageInput,
    plan_id: Seq<char>,
    created_at: Seq<char>,
) -> Seq<char> {
    "---\n"@ + render_front_matter(input, plan_id, created_at) + "---\n\n# CAD Plan: "@ + input.title@
        + "\n\n## Goal\n\n"@ + trim(input.request@) + "\n\n## Current Context\n\nTarget ref: `"@
        + input.target_ref@ + "`\n\n## CadQuery Strategy\n\n"@ + trim(input.strategy@)
        + "\n\n## Risks\n"@ + markdown_list(string_views(input.risks@)) + "\n\n## Acceptance\n"@
        + markdown_list(string_views(input.acceptance@)) + "\n\n## Execution Scope\n\n"@ + trim(
        input.execution_scope@,
    ) + "\n"@
}

/// The text of `plan.md`.
pub fn render_plan_markdown_exec(input: &SaveCadPlanPackageInput, plan_id: &str, created_at: &str) -> (r: String)
    ensures
        r@ == render_plan_markdown(*input, plan_id@, created_at@),
{
    let mut out = chars_of("---\n");
    let fm = render_front_matter_exec(input, plan_id, created_at);
    append_chars(&mut out, &fm);
    append_lit(&mut out, "---\n\n# CAD Plan: ");
    let title = chars_of(input.title.as_str());
    append_chars(&mut out, &title);
    append_lit(&mut out, "\n\n## Goal\n\n");
    let req = chars_of(input.request.as_str());
    let req_t = trim_exec(&req);
    append_chars(&mut out, &req_t);
    append_lit(&mut out, "\n\n## Current Context\n\nTarget ref: `");
    let tr = chars_of(input.target_ref.as_str());
    append_chars(&mut out, &tr);
    append_lit(&mut out, "`\n\n## CadQuery Strategy\n\n");
    let st = chars_of(input.strategy.as_str());
    let st_t = trim_exec(&st);
    append_chars(&mut out, &st_t);
    append_lit(&mut out, "\n\n## Risks\n");
    let risks = markdown_list_exec(&input.risks);
    append_chars(&mut out, &risks);
    append_lit(&mut out, "\n\n## Acceptance\n");
    let acc = markdown_list_exec(&input.acceptance);
    append_chars(&mut out, &acc);
    append_lit(&mut out, "\n\n## Execution Scope\n\n");
    let sc = chars_of(input.execution_scope.as_str());
    let sc_t = trim_exec(&sc);
    append_chars(&mut out, &sc_t);
    append_lit(&mut out, "\n");
    string_of(&out)
}

/// The initial text of `plan-result.md`.
pub open spec fn render_initial_result_markdown(title: Seq<char>, plan_id: Seq<char>, created_at: Seq<char>) -> Seq<char> {
    "status: pending\nplan_id: "@ + plan_id + "\ncreated_at: "@ + created_at + "\n\n# Plan Result: "@
        + title + "\n"@
}

pub fn render_initial_result_markdown_exec(input: &SaveCadPlanPackageInput, plan_id: &str, created_at: &str) -> (r: String)
    ensures
        r@ == render_initial_result_markdown(input.title@, plan_id@, created_at@),
{
    let mut out = chars_of("status: pending\nplan_id: ");
    let id = chars_of(plan_id);
    append_chars(&mut out, &id);
    append_lit(&mut out, "\ncreated_at: ");
    let c = chars_of(created_at);
    append_chars(&mut out, &c);
    append_lit(&mut out, "\n\n# Plan Result: ");
    let t = chars_of(input.title.as_str());
    append_chars(&mut out, &t);
    append_lit(&mut out, "\n");
    string_of(&out)
}

// ---------------------------------------------------------------------------
// Allocated ids name their package

/// A slug character: an ASCII letter or digit, or `-`.
pub open spec fn slug_char(c: char) -> bool {
    is_ascii_alnum(c) || c == '-'
}

pub open spec fn all_slug_chars(s: Seq<char>) -> bool {
    forall|i: int| 0 <= i < s.len() ==> slug_char(#[trigger] s[i])
}

proof fn lemma_slug_build_chars(l: Seq<char>)
    ensures
        all_slug_chars(slug_build(l)),
    decreases l.len(),
{
    if l.len() > 0 {
        lemma_slug_build_chars(l.drop_last());
        let prev = slug_build(l.drop_last());
        let c = l.last();
        let next = slug_build(l);
        assert(next == slug_step(prev, c));
        assert forall|i: int| 0 <= i < next.len() implies slug_char(#[trigger] next[i]) by {
            if i < prev.len() {
                assert(next[i] == prev[i]);
            }
        }
    }
}

proof fn lemma_trim_char_start_chars(s: Seq<char>, c: char)
    requires
        all_slug_chars(s),
    ensures
        all_slug_chars(trim_char_start(s, c)),
    decreases s.len(),
{
    if s.len() > 0 && s[0] == c {
        assert(all_slug_chars(s.drop_first())) by {
            assert forall|i: int| 0 <= i < s.drop_first().len() implies slug_char(#[trigger] s.drop_first()[i]) by {
                assert(s.drop_first()[i] == s[i + 1]);
            }
        }
        lemma_trim_char_start_chars(s.drop_first(), c);
    }
}

proof fn lemma_trim_char_end_chars(s: Seq<char>, c: char)
    requires
        all_slug_chars(s),
    ensures
        all_slug_chars(trim_char_end(s, c)),
    decreases s.len(),
{
    if s.len() > 0 && s.last() == c {
        assert(all_slug_chars(s.drop_last())) by {
            assert forall|i: int| 0 <= i < s.drop_last().len() implies slug_char(#[trigger] s.drop_last()[i]) by {
                assert(s.drop_last()[i] == s[i]);
            }
        }
        lemma_trim_char_end_chars(s.drop_last(), c);
    }
}

/// A slug is never empty and holds only slug characters.
pub proof fn lemma_slug_shape(title: Seq<char>)
    ensures
        slugify(title).len() > 0,
        forall|i: int| 0 <= i < slugify(title).len() ==> slug_char(#[trigger] slugify(title)[i]),
{
    let b = slug_build(lower_all(title));
    lemma_slug_build_chars(lower_all(title));
    lemma_trim_char_start_chars(b, '-');
    lemma_trim_char_end_chars(trim_char_start(b, '-'), '-');
    let t = trim_char(b, '-');
    if t.len() == 0 {
        reveal_strlit("cad-plan");
        assert(forall|i: int| 0 <= i < slugify(title).len() ==> slug_char(#[trigger] slugify(title)[i]));
    }
}

/// Two hyphens in a row at `i`.
pub open spec fn doubled_hyphen_at(s: Seq<char>, i: int) -> bool {
    s[i] == '-' && s[i + 1] == '-'
}

pub open spec fn no_doubled_hyphen(s: Seq<char>) -> bool {
    forall|i: int| 0 <= i < s.len() - 1 ==> !#[trigger] doubled_hyphen_at(s, i)
}

pub open spec fn is_ascii_upper(c: char) -> bool {
    'A' <= c && c <= 'Z'
}

pub open spec fn no_ascii_upper(s: Seq<char>) -> bool {
    forall|i: int| 0 <= i < s.len() ==> !is_ascii_upper(#[trigger] s[i])
}

pub open spec fn ascii_text(s: Seq<char>) -> bool {
    forall|i: int| 0 <= i < s.len() ==> ((#[trigger] s[i]) as u32) < 128
}

proof fn lemma_slug_build_no_doubled(l: Seq<char>)
    ensures
        no_doubled_hyphen(slug_build(l)),
    decreases l.len(),
{
    if l.len() > 0 {
        lemma_slug_build_no_doubled(l.drop_last());
        let prev = slug_build(l.drop_last());
        let next = slug_build(l);
        assert(next == slug_step(prev, l.last()));
        assert forall|i: int| 0 <= i < next.len() - 1 implies !#[trigger] doubled_hyphen_at(next, i) by {
            if i + 1 < prev.len() {
                assert(next[i] == prev[i] && next[i + 1] == prev[i + 1]);
                assert(!doubled_hyphen_at(prev, i));
            } else {
                assert(next[i] == prev[i]);
            }
        }
    }
}

proof fn lemma_slug_build_no_upper(l: Seq<char>)
    requires
        no_ascii_upper(l),
    ensures
        no_ascii_upper(slug_build(l)),
    decreases l.len(),
{
    if l.len() > 0 {
        assert(no_ascii_upper(l.drop_last())) by {
            assert forall|i: int| 0 <= i < l.drop_last().len() implies !is_ascii_upper(#[trigger] l.drop_last()[i]) by {
                assert(l.drop_last()[i] == l[i]);
            }
        }
        lemma_slug_build_no_upper(l.drop_last());
        let prev = slug_build(l.drop_last());
        let next = slug_build(l);
        assert(!is_ascii_upper(l[l.len() - 1]));
        assert forall|i: int| 0 <= i < next.len() implies !is_ascii_upper(#[trigger] next[i]) by {
            if i < prev.len() {
                assert(next[i] == prev[i]);
            }
        }
    }
}

proof fn lemma_lower_all_ascii(t: Seq<char>)
    requires
        ascii_text(t),
    ensures
        no_ascii_upper(lower_all(t)),
        lower_all(t).len() == t.len(),
        forall|i: int| 0 <= i < t.len() ==> #[trigger] lower_all(t)[i] == ascii_lower(t[i]),
    decreases t.len(),
{
    if t.len() > 0 {
        assert(ascii_text(t.drop_last())) by {
            assert forall|i: int| 0 <= i < t.drop_last().len() implies ((#[trigger] t.drop_last()[i]) as u32) < 128 by {
                assert(t.drop_last()[i] == t[i]);
            }
        }
        lemma_lower_all_ascii(t.drop_last());
        let c = t.last();
        assert((c as u32) < 128);
        assert(lower_char(c) == seq![ascii_lower(c)]);
        assert forall|i: int| 0 <= i < t.len() implies #[trigger] lower_all(t)[i] == ascii_lower(t[i]) by {
            if i < t.len() - 1 {
                assert(t.drop_last()[i] == t[i]);
            }
        }
        assert forall|i: int| 0 <= i < lower_all(t).len() implies !is_ascii_upper(#[trigger] lower_all(t)[i]) by {
            assert(lower_all(t)[i] == ascii_lower(t[i]));
        }
    }
}

proof fn lemma_trim_start_shape(s: Seq<char>, c: char)
    ensures
        trim_char_start(s, c).len() > 0 ==> trim_char_start(s, c)[0] != c,
        exists|k: int| 0 <= k <= s.len() && trim_char_start(s, c) == #[trigger] s.subrange(k, s.len() as int),
    decreases s.len(),
{
    if s.len() > 0 && s[0] == c {
        lemma_trim_start_shape(s.drop_first(), c);
        let k = choose|k: int|
            0 <= k <= s.drop_first().len() && trim_char_start(s.drop_first(), c) == #[trigger] s.drop_first().subrange(
                k,
                s.drop_first().len() as int,
            );
        assert(s.drop_first().subrange(k, s.drop_first().len() as int) =~= s.subrange(k + 1, s.len() as int));
    } else {
        assert(s.subrange(0, s.len() as int) =~= s);
    }
}

proof fn lemma_trim_end_shape(s: Seq<char>, c: char)
    ensures
        trim_char_end(s, c).len() > 0 ==> trim_char_end(s, c).last() != c,
        exists|k: int| 0 <= k <= s.len() && trim_char_end(s, c) == #[trigger] s.subrange(0, k),
    decreases s.len(),
{
    if s.len() > 0 && s.last() == c {
        lemma_trim_end_shape(s.drop_last(), c);
        let k = choose|k: int| 0 <= k <= s.drop_last().len() && trim_char_end(s.drop_last(), c) == #[trigger] s.drop_last().subrange(0, k);
        assert(s.drop_last().subrange(0, k) =~= s.subrange(0, k));
    } else {
        assert(s.subrange(0, s.len() as int) =~= s);
    }
}

/// A piece of a text keeps its lack of doubled hyphens and of capitals.
proof fn lemma_subrange_clean(s: Seq<char>, a: int, b: int)
    requires
        0 <= a <= b <= s.len(),
    ensures
        no_doubled_hyphen(s) ==> no_doubled_hyphen(s.subrange(a, b)),
        no_ascii_upper(s) ==> no_ascii_upper(s.subrange(a, b)),
{
    let t = s.subrange(a, b);
    if no_doubled_hyphen(s) {
        assert forall|i: int| 0 <= i < t.len() - 1 implies !#[trigger] doubled_hyphen_at(t, i) by {
            assert(t[i] == s[a + i] && t[i + 1] == s[a + i + 1]);
            assert(!doubled_hyphen_at(s, a + i));
        }
    }
    if no_ascii_upper(s) {
        assert forall|i: int| 0 <= i < t.len() implies !is_ascii_upper(#[trigger] t[i]) by {
            assert(t[i] == s[a + i]);
        }
    }
}

/// The trimmed slug of a title's characters: its shape.
proof fn lemma_trimmed_shape(b: Seq<char>)
    ensures
        trim_char(b, '-').len() > 0 ==> trim_char(b, '-')[0] != '-' && trim_char(b, '-').last() != '-',
        no_doubled_hyphen(b) ==> no_doubled_hyphen(trim_char(b, '-')),
        no_ascii_upper(b) ==> no_ascii_upper(trim_char(b, '-')),
{
    let s1 = trim_char_start(b, '-');
    lemma_trim_start_shape(b, '-');
    lemma_trim_end_shape(s1, '-');
    let k1 = choose|k: int| 0 <= k <= b.len() && s1 == #[trigger] b.subrange(k, b.len() as int);
    lemma_subrange_clean(b, k1, b.len() as int);
    let k2 = choose|k: int| 0 <= k <= s1.len() && trim_char_end(s1, '-') == #[trigger] s1.subrange(0, k);
    lemma_subrange_clean(s1, 0, k2);
    let t = trim_char(b, '-');
    if t.len() > 0 {
        assert(t[0] == s1[0]);
    }
}

/// A clean slug is its own slug.
proof fn lemma_clean_slug_fixed(s: Seq<char>)
    requires
        s.len() > 0,
        all_slug_chars(s),
        no_ascii_upper(s),
        no_doubled_hyphen(s),
        s[0] != '-',
        s.last() != '-',
    ensures
        slugify(s) == s,
{
    assert(ascii_text(s)) by {
        assert forall|i: int| 0 <= i < s.len() implies ((#[trigger] s[i]) as u32) < 128 by {
            assert(slug_char(s[i]));
        }
    }
    lemma_lower_all_ascii(s);
    assert(lower_all(s) =~= s) by {
        assert forall|i: int| 0 <= i < s.len() implies #[trigger] lower_all(s)[i] == s[i] by {
            assert(lower_all(s)[i] == ascii_lower(s[i]));
            assert(!is_ascii_upper(s[i]));
        }
    }
    lemma_slug_build_prefix(s, s.len() as int);
    assert(s.take(s.len() as int) =~= s);
    assert(trim_char_start(s, '-') == s);
    assert(trim_char_end(s, '-') == s);
}

proof fn lemma_slug_build_prefix(s: Seq<char>, k: int)
    requires
        0 <= k <= s.len(),
        all_slug_chars(s),
        no_doubled_hyphen(s),
        s.len() > 0 ==> s[0] != '-',
    ensures
        slug_build(s.take(k)) == s.take(k),
    decreases k,
{
    if k > 0 {
        lemma_slug_build_prefix(s, k - 1);
        assert(s.take(k).drop_last() =~= s.take(k - 1));
        let c = s[k - 1];
        assert(s.take(k).last() == c);
        assert(slug_char(c));
        if c == '-' {
            assert(k - 1 > 0);
            assert(!doubled_hyphen_at(s, k - 2));
            assert(s.take(k - 1).last() == s[k - 2]);
        }
        assert(s.take(k - 1).push(c) =~= s.take(k));
    }
}

/// A slug is never empty, holds only ASCII letters, digits and hyphens, and
/// neither starts nor ends with a hyphen nor holds two in a row. A title of
/// ASCII characters gets a lowercase slug, and a slug without capitals is
/// its own slug.
pub proof fn law_slug_shape(title: Seq<char>)
    ensures
        slugify(title).len() > 0,
        all_slug_chars(slugify(title)),
        slugify(title)[0] != '-',
        slugify(title).last() != '-',
        no_doubled_hyphen(slugify(title)),
        ascii_text(title) ==> no_ascii_upper(slugify(title)),
        no_ascii_upper(slugify(title)) ==> slugify(slugify(title)) == slugify(title),
{
    lemma_slug_shape(title);
    let l = lower_all(title);
    let b = slug_build(l);
    lemma_slug_build_no_doubled(l);
    lemma_trimmed_shape(b);
    if ascii_text(title) {
        lemma_lower_all_ascii(title);
        lemma_slug_build_no_upper(l);
    }
    if trim_char(b, '-').len() == 0 {
        reveal_strlit("cad-plan");
        let c = "cad-plan"@;
        assert forall|i: int| 0 <= i < c.len() - 1 implies !#[trigger] doubled_hyphen_at(c, i) by {}
        assert forall|i: int| 0 <= i < c.len() implies !is_ascii_upper(#[trigger] c[i]) by {}
    }
    if no_ascii_upper(slugify(title)) {
        lemma_clean_slug_fixed(slugify(title));
    }
}

/// A date prefix: eight ASCII digits.
pub open spec fn date_prefix_ok(p: Seq<char>) -> bool {
    p.len() == 8 && forall|i: int| 0 <= i < 8 ==> is_ascii_digit(#[trigger] p[i])
}

/// An allocated plan id looks like a plan id, carries the daily sequence it
/// was allocated with, and is the id that the reference of its package
/// names.
pub proof fn law_allocated_plan_id_names_its_package(date_prefix: Seq<char>, next: u8, title: Seq<char>)
    requires
        date_prefix_ok(date_prefix),
        next <= 99,
    ensures
        looks_like_plan_id(plan_id_for(date_prefix, next, title)),
        sequence_for_date(plan_id_for(date_prefix, next, title), date_prefix) == Some(next),
        plan_id_from_ref(package_paths_spec(plan_id_for(date_prefix, next, title)).1) == Ok::<
            Seq<char>,
            (Seq<char>, Seq<char>),
        >(plan_id_for(date_prefix, next, title)),
{
    let id = plan_id_for(date_prefix, next, title);
    let slug = slugify(title);
    lemma_slug_shape(title);
    let hi = digit_char(next as int / 10);
    let lo = digit_char(next as int % 10);
    assert(hi as u32 == 48 + next as int / 10);
    assert(lo as u32 == 48 + next as int % 10);
    assert(is_ascii_digit(hi) && is_ascii_digit(lo));
    assert(id.len() == 11 + slug.len());
    assert forall|i: int| 0 <= i < 10 implies is_ascii_digit(#[trigger] id[i]) by {
        if i < 8 {
            assert(id[i] == date_prefix[i]);
        } else if i == 8 {
            assert(id[i] == hi);
        } else {
            assert(id[i] == lo);
        }
    }
    assert(id[10] == '-');
    let rest = id.subrange(8, id.len() as int);
    assert(starts_with(id, date_prefix)) by {
        assert(id.subrange(0, 8) =~= date_prefix);
    }
    assert(strip_prefix(id, date_prefix) == Some(rest));
    assert(rest[0] == hi && rest[1] == lo && rest[2] == '-');
    assert(parse_two(hi, lo) == Some(next)) by {
        assert((((hi as u32) - ('0' as u32)) * 10 + ((lo as u32) - ('0' as u32))) == next as int) by (nonlinear_arith)
            requires
                hi as u32 == 48 + next as int / 10,
                lo as u32 == 48 + next as int % 10,
                '0' as u32 == 48,
                0 <= next <= 99,
        ;
    }
    assert forall|j: int| 0 <= j < id.len() implies id[j] != '/' by {
        if j < 8 {
            assert(id[j] == date_prefix[j]);
        } else if j == 8 {
        } else if j == 9 {
        } else if j == 10 {
        } else {
            assert(id[j] == slug[j - 11]);
            assert(slug_char(slug[j - 11]));
        }
    }
    reveal_strlit("plans/");
    reveal_strlit("plans");
    let head: Seq<char> = "plans"@;
    assert("plans/"@ =~= head.push('/'));
    lemma_split_push_sep(head, '/');
    assert forall|j: int| 0 <= j < head.len() implies head[j] != '/' by {}
    lemma_split_append_free(Seq::<char>::empty(), head, '/');
    assert(Seq::<char>::empty() + head =~= head);
    assert(split(Seq::<char>::empty(), '/') == seq![Seq::<char>::empty()]);
    assert(split(head, '/') =~= seq![head]);
    lemma_split_append_free(head.push('/'), id, '/');
    assert(split("plans/"@ + id, '/') =~= seq![head, id]);
}

proof fn lemma_max_sequence_is_max(names: Seq<Seq<char>>, date_prefix: Seq<char>)
    ensures
        match max_sequence(names, date_prefix) {
            Some(m) => (forall|i: int| 0 <= i < names.len() ==> (sequence_for_date(#[trigger] names[i], date_prefix) matches Some(s)
                ==> s <= m)) && exists|i: int| 0 <= i < names.len() && sequence_for_date(#[trigger] names[i], date_prefix)
                == Some(m),
            None => forall|i: int| 0 <= i < names.len() ==> sequence_for_date(#[trigger] names[i], date_prefix) is None,
        },
    decreases names.len(),
{
    if names.len() > 0 {
        let init = names.drop_last();
        lemma_max_sequence_is_max(init, date_prefix);
        assert forall|i: int| 0 <= i < init.len() implies #[trigger] names[i] == init[i] by {}
        let last = names.len() - 1;
        assert(names[last] == names.last());
        match max_sequence(init, date_prefix) {
            Some(m) => {
                let k = choose|i: int| 0 <= i < init.len() && sequence_for_date(#[trigger] init[i], date_prefix) == Some(m);
                assert(names[k] == init[k]);
            },
            None => {},
        }
    }
}

/// The next daily sequence names no package of that day: it is past every
/// sequence already used for the date, whatever the order of the names; it
/// is one past the largest used, and zero when none is used.
pub proof fn law_next_sequence_is_fresh(names: Seq<Seq<char>>, date_prefix: Seq<char>)
    ensures
        next_daily_sequence(names, date_prefix) matches Ok(n) ==> forall|i: int|
            0 <= i < names.len() ==> (sequence_for_date(#[trigger] names[i], date_prefix) matches Some(s) ==> s < n),
        next_daily_sequence(names, date_prefix) matches Ok(n) ==> (n == 0 || exists|i: int|
            0 <= i < names.len() && #[trigger] sequence_for_date(names[i], date_prefix) == Some((n - 1) as u8)),
        (forall|i: int| 0 <= i < names.len() ==> sequence_for_date(#[trigger] names[i], date_prefix) is None)
            ==> next_daily_sequence(names, date_prefix) == Ok::<u8, (Seq<char>, Seq<char>)>(0),
        next_daily_sequence(names, date_prefix) is Err ==> exists|i: int|
            0 <= i < names.len() && #[trigger] sequence_for_date(names[i], date_prefix) == Some(99u8),
{
    lemma_max_sequence_is_max(names, date_prefix);
    lemma_max_sequence_bound(names, date_prefix);
    if let Some(m) = max_sequence(names, date_prefix) {
        let k = choose|i: int| 0 <= i < names.len() && sequence_for_date(#[trigger] names[i], date_prefix) == Some(m);
        assert(sequence_for_date(names[k], date_prefix) == Some(m));
        if m + 1 <= 99 {
            assert(((m + 1) - 1) as u8 == m);
        }
    } else {
        if exists|i: int| 0 <= i < names.len() && sequence_for_date(#[trigger] names[i], date_prefix) is Some {
            let k = choose|i: int| 0 <= i < names.len() && sequence_for_date(#[trigger] names[i], date_prefix) is Some;
            assert(sequence_for_date(names[k], date_prefix) is None);
        }
    }
}

} // verus!
