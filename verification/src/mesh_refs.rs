//! What a CadQuery result's parts and their feature maps say of a visible
//! ref, and the feature keys a source's `REFS` lists.
use vstd::prelude::*;
use crate::text::{
    chars_of, eq_lit, find, find_exec, is_ascii_digit, is_ascii_digit_exec, occurs_at, seq_eq, slice_vec,
    string_of, strip_prefix, strip_prefix_lit, strip_suffix, strip_suffix_lit, views,
};

verus! {

// ---------------------------------------------------------------------------
// Numbers

/// The value of a run of decimal digits.
pub open spec fn digits_value(s: Seq<char>) -> nat
    decreases s.len(),
{
    if s.len() == 0 {
        0
    } else {
        digits_value(s.drop_last()) * 10 + (s.last() as nat - '0' as nat) as nat
    }
}

pub open spec fn all_digits(s: Seq<char>) -> bool {
    forall|i: int| 0 <= i < s.len() ==> is_ascii_digit(#[trigger] s[i])
}

/// A `u32` as `str::parse` reads one: an optional `+`, then at least one
/// digit, no larger than `u32::MAX`.
pub open spec fn parse_u32(s: Seq<char>) -> Option<u32> {
    let d = if s.len() > 0 && s[0] == '+' {
        s.drop_first()
    } else {
        s
    };
    if d.len() > 0 && all_digits(d) && digits_value(d) <= u32::MAX {
        Some(digits_value(d) as u32)
    } else {
        None
    }
}

pub proof fn lemma_digits_grow(s: Seq<char>, k: int)
    requires
        0 <= k <= s.len(),
        all_digits(s),
    ensures
        digits_value(s.take(k)) <= digits_value(s),
    decreases s.len() - k,
{
    if k < s.len() {
        lemma_digits_grow(s.drop_last(), if k < s.len() { k } else { k - 1 });
        assert(s.drop_last().take(k) =~= s.take(k));
        assert(all_digits(s.drop_last()));
    } else {
        assert(s.take(k) =~= s);
    }
}

pub fn parse_u32_exec(s: &[char]) -> (r: Option<u32>)
    ensures
        r == parse_u32(s@),
{
    let start: usize = if s.len() > 0 && s[0] == '+' {
        1
    } else {
        0
    };
    let ghost d = if s@.len() > 0 && s@[0] == '+' {
        s@.drop_first()
    } else {
        s@
    };
    proof {
        assert(d =~= s@.subrange(start as int, s@.len() as int));
    }
    if start >= s.len() {
        return None;
    }
    let mut value: u64 = 0;
    let mut i: usize = start;
    proof {
        assert(d.take(0) =~= Seq::<char>::empty());
    }
    while i < s.len()
        invariant
            start <= i <= s.len(),
            d =~= s@.subrange(start as int, s@.len() as int),
            d == (if s@.len() > 0 && s@[0] == '+' {
                s@.drop_first()
            } else {
                s@
            }),
            value == digits_value(d.take(i - start)),
            value <= u32::MAX,
            all_digits(d.take(i - start)),
        decreases s.len() - i,
    {
        let c = s[i];
        proof {
            assert(d.take(i - start + 1).drop_last() =~= d.take(i - start));
            assert(d.take(i - start + 1).last() == c);
        }
        if !is_ascii_digit_exec(c) {
            proof {
                assert(!all_digits(d));
            }
            return None;
        }
        let digit = (c as u32 - '0' as u32) as u64;
        value = value * 10 + digit;
        proof {
            assert(all_digits(d.take(i - start + 1)));
        }
        if value > u32::MAX as u64 {
            proof {
                if all_digits(d) {
                    lemma_digits_grow(d, i - start + 1);
                }
            }
            return None;
        }
        i = i + 1;
    }
    proof {
        assert(d.take(i - start) =~= d);
    }
    Some(value as u32)
}

/// A `u64` as `str::parse` reads one: an optional `+`, then at least one
/// digit, no larger than `u64::MAX`.
pub open spec fn parse_u64(s: Seq<char>) -> Option<u64> {
    let d = if s.len() > 0 && s[0] == '+' {
        s.drop_first()
    } else {
        s
    };
    if d.len() > 0 && all_digits(d) && digits_value(d) <= u64::MAX {
        Some(digits_value(d) as u64)
    } else {
        None
    }
}

pub fn parse_u64_exec(s: &[char]) -> (r: Option<u64>)
    ensures
        r == parse_u64(s@),
{
    let start: usize = if s.len() > 0 && s[0] == '+' {
        1
    } else {
        0
    };
    let ghost d = if s@.len() > 0 && s@[0] == '+' {
        s@.drop_first()
    } else {
        s@
    };
    proof {
        assert(d =~= s@.subrange(start as int, s@.len() as int));
    }
    if start >= s.len() {
        return None;
    }
    let mut value: u128 = 0;
    let mut i: usize = start;
    proof {
        assert(d.take(0) =~= Seq::<char>::empty());
    }
    while i < s.len()
        invariant
            start <= i <= s.len(),
            d =~= s@.subrange(start as int, s@.len() as int),
            d == (if s@.len() > 0 && s@[0] == '+' {
                s@.drop_first()
            } else {
                s@
            }),
            value == digits_value(d.take(i - start)),
            value <= u64::MAX,
            all_digits(d.take(i - start)),
        decreases s.len() - i,
    {
        let c = s[i];
        proof {
            assert(d.take(i - start + 1).drop_last() =~= d.take(i - start));
            assert(d.take(i - start + 1).last() == c);
        }
        if !is_ascii_digit_exec(c) {
            proof {
                assert(!all_digits(d));
            }
            return None;
        }
        let digit = (c as u32 - '0' as u32) as u128;
        value = value * 10 + digit;
        proof {
            assert(all_digits(d.take(i - start + 1)));
        }
        if value > u64::MAX as u128 {
            proof {
                if all_digits(d) {
                    lemma_digits_grow(d, i - start + 1);
                }
            }
            return None;
        }
        i = i + 1;
    }
    proof {
        assert(d.take(i - start) =~= d);
    }
    Some(value as u64)
}

// ---------------------------------------------------------------------------
// Parts and features of a result

/// A feature of a part and the faces it covers.
#[derive(Debug, Clone, PartialEq, Eq)]
pub struct MeshFeature {
    pub feature: String,
    pub face_indices: Vec<u32>,
}

/// A part of a CadQuery result, as far as refs read it.
#[derive(Debug, Clone, PartialEq, Eq)]
pub struct MeshPart {
    pub name: String,
    pub ref_text: String,
    pub feature_map: Vec<MeshFeature>,
}

/// `@face[<owner>:f_<n>]`, split at the first `:f_`.
pub open spec fn parse_face_ref(ref_text: Seq<char>) -> Option<(Seq<char>, u32)> {
    match strip_prefix(ref_text, "@face["@) {
        None => None,
        Some(a) => match strip_suffix(a, "]"@) {
            None => None,
            Some(v) => match find(v, ":f_"@) {
                None => None,
                Some(j) => match parse_u32(v.subrange(j + 3, v.len() as int)) {
                    None => None,
                    Some(n) => Some((v.subrange(0, j), n)),
                },
            },
        },
    }
}

pub fn parse_face_ref_exec(ref_text: &[char]) -> (r: Option<(Vec<char>, u32)>)
    ensures
        match r {
            Some((o, n)) => parse_face_ref(ref_text@) == Some((o@, n)),
            None => parse_face_ref(ref_text@) is None,
        },
{
    let a = match strip_prefix_lit(ref_text, "@face[") {
        Some(a) => a,
        None => return None,
    };
    let v = match strip_suffix_lit(&a, "]") {
        Some(v) => v,
        None => return None,
    };
    let sep = chars_of(":f_");
    let j = match find_exec(&v, &sep) {
        Some(j) => j,
        None => return None,
    };
    proof {
        reveal_strlit(":f_");
        assert(occurs_at(v@, sep@, j as int));
    }
    assert(j + 3 <= v.len());
    let n = match parse_u32_exec(&slice_vec(&v, j + 3, v.len())) {
        Some(n) => n,
        None => return None,
    };
    Some((slice_vec(&v, 0, j), n))
}

/// A part is named `owner`, or its ref is `@part[owner]`.
pub open spec fn part_matches(p: MeshPart, owner: Seq<char>) -> bool {
    p.name@ == owner || p.ref_text@ == "@part["@ + owner + "]"@
}

fn part_matches_exec(p: &MeshPart, owner: &[char]) -> (r: bool)
    ensures
        r == part_matches(*p, owner@),
{
    if seq_eq(&chars_of(p.name.as_str()), owner) {
        return true;
    }
    let mut expected = chars_of("@part[");
    crate::text::append_chars(&mut expected, owner);
    crate::text::append_lit(&mut expected, "]");
    seq_eq(&chars_of(p.ref_text.as_str()), &expected)
}

/// The first part that matches an owner.
pub open spec fn first_part(parts: Seq<MeshPart>, owner: Seq<char>) -> Option<int> {
    if exists|k: int| 0 <= k < parts.len() && part_matches(parts[k], owner) {
        Some(
            choose|k: int|
                0 <= k < parts.len() && part_matches(parts[k], owner) && forall|m: int|
                    0 <= m < k ==> !part_matches(parts[m], owner),
        )
    } else {
        None
    }
}

fn first_part_exec(parts: &Vec<MeshPart>, owner: &[char]) -> (r: Option<usize>)
    ensures
        match (r, first_part(parts@, owner@)) {
            (Some(a), Some(b)) => a == b && a < parts@.len(),
            (None, None) => true,
            _ => false,
        },
{
    let mut i: usize = 0;
    while i < parts.len()
        invariant
            i <= parts.len(),
            forall|m: int| 0 <= m < i ==> !part_matches(parts@[m], owner@),
        decreases parts.len() - i,
    {
        if part_matches_exec(&parts[i], owner) {
            proof {
                let k = first_part(parts@, owner@)->0;
                if k < i {
                    assert(!part_matches(parts@[k], owner@));
                }
                if k > i {
                    assert(!part_matches(parts@[i as int], owner@));
                }
            }
            return Some(i);
        }
        i = i + 1;
    }
    proof {
        if first_part(parts@, owner@) is Some {
            let k = choose|k: int| 0 <= k < parts@.len() && part_matches(parts@[k], owner@);
            assert(!part_matches(parts@[k], owner@));
        }
    }
    None
}

/// The first feature of a part that covers a face.
pub open spec fn feature_with_face(features: Seq<MeshFeature>, face: u32) -> Option<int> {
    if exists|k: int| 0 <= k < features.len() && features[k].face_indices@.contains(face) {
        Some(
            choose|k: int|
                0 <= k < features.len() && features[k].face_indices@.contains(face) && forall|m: int|
                    0 <= m < k ==> !features[m].face_indices@.contains(face),
        )
    } else {
        None
    }
}

fn covers_face(indices: &Vec<u32>, face: u32) -> (r: bool)
    ensures
        r == indices@.contains(face),
{
    let mut i: usize = 0;
    while i < indices.len()
        invariant
            i <= indices.len(),
            forall|m: int| 0 <= m < i ==> indices@[m] != face,
        decreases indices.len() - i,
    {
        if indices[i] == face {
            return true;
        }
        i = i + 1;
    }
    false
}

fn feature_with_face_exec(features: &Vec<MeshFeature>, face: u32) -> (r: Option<usize>)
    ensures
        match (r, feature_with_face(features@, face)) {
            (Some(a), Some(b)) => a == b && a < features@.len(),
            (None, None) => true,
            _ => false,
        },
{
    let mut i: usize = 0;
    while i < features.len()
        invariant
            i <= features.len(),
            forall|m: int| 0 <= m < i ==> !features@[m].face_indices@.contains(face),
        decreases features.len() - i,
    {
        if covers_face(&features[i].face_indices, face) {
            proof {
                let k = feature_with_face(features@, face)->0;
                if k < i {
                    assert(!features@[k].face_indices@.contains(face));
                }
                if k > i {
                    assert(!features@[i as int].face_indices@.contains(face));
                }
            }
            return Some(i);
        }
        i = i + 1;
    }
    proof {
        if feature_with_face(features@, face) is Some {
            let k = choose|k: int| 0 <= k < features@.len() && features@[k].face_indices@.contains(face);
            assert(!features@[k].face_indices@.contains(face));
        }
    }
    None
}

/// A face ref: the first part of its owner, the first feature of that part
/// covering the face; the part's ref and `@feature[owner.feature]`.
pub open spec fn face_ref_target(parts: Seq<MeshPart>, ref_text: Seq<char>) -> Option<(Seq<char>, Seq<char>)> {
    match parse_face_ref(ref_text) {
        None => None,
        Some((owner, face)) => match first_part(parts, owner) {
            None => None,
            Some(k) => match feature_with_face(parts[k].feature_map@, face) {
                None => None,
                Some(f) => Some(
                    (parts[k].ref_text@, "@feature["@ + owner + "."@ + parts[k].feature_map@[f].feature@ + "]"@),
                ),
            },
        },
    }
}

/// Some feature of a part has the name.
pub open spec fn has_feature_named(features: Seq<MeshFeature>, name: Seq<char>) -> bool {
    exists|m: int| 0 <= m < features.len() && (#[trigger] features[m]).feature@ == name
}

/// A feature ref whose owner's first part has the feature: the part's ref
/// and the ref itself.
pub open spec fn feature_ref_target(parts: Seq<MeshPart>, ref_text: Seq<char>) -> Option<(Seq<char>, Seq<char>)> {
    match strip_prefix(ref_text, "@feature["@) {
        None => None,
        Some(a) => match strip_suffix(a, "]"@) {
            None => None,
            Some(v) => match crate::text::split_once(v, '.') {
                None => None,
                Some((owner, name)) => match first_part(parts, owner) {
                    None => None,
                    Some(k) => if has_feature_named(parts[k].feature_map@, name) {
                        Some((parts[k].ref_text@, ref_text))
                    } else {
                        None
                    },
                },
            },
        },
    }
}

/// What a selection ref resolves to in a result: a face ref first, else a
/// feature ref.
pub open spec fn selection_target(parts: Seq<MeshPart>, ref_text: Seq<char>) -> Option<(Seq<char>, Seq<char>)> {
    match face_ref_target(parts, ref_text) {
        Some(t) => Some(t),
        None => feature_ref_target(parts, ref_text),
    }
}

pub open spec fn pair_view(r: Option<(String, String)>) -> Option<(Seq<char>, Seq<char>)> {
    match r {
        Some((a, b)) => Some((a@, b@)),
        None => None,
    }
}

pub fn resolve_face_ref(parts: &Vec<MeshPart>, ref_text: &str) -> (r: Option<(String, String)>)
    ensures
        pair_view(r) == face_ref_target(parts@, ref_text@),
{
    let (owner, face) = match parse_face_ref_exec(&chars_of(ref_text)) {
        Some(p) => p,
        None => return None,
    };
    let k = match first_part_exec(parts, &owner) {
        Some(k) => k,
        None => return None,
    };
    let part = &parts[k];
    let f = match feature_with_face_exec(&part.feature_map, face) {
        Some(f) => f,
        None => return None,
    };
    let mut feature = chars_of("@feature[");
    crate::text::append_chars(&mut feature, &owner);
    crate::text::append_lit(&mut feature, ".");
    crate::text::append_lit(&mut feature, part.feature_map[f].feature.as_str());
    crate::text::append_lit(&mut feature, "]");
    Some((part.ref_text.clone(), string_of(&feature)))
}

pub fn resolve_feature_ref(parts: &Vec<MeshPart>, ref_text: &str) -> (r: Option<(String, String)>)
    ensures
        pair_view(r) == feature_ref_target(parts@, ref_text@),
{
    let t = chars_of(ref_text);
    let a = match strip_prefix_lit(&t, "@feature[") {
        Some(a) => a,
        None => return None,
    };
    let v = match strip_suffix_lit(&a, "]") {
        Some(v) => v,
        None => return None,
    };
    let (owner, name) = match crate::text::split_once_exec(&v, '.') {
        Some(p) => p,
        None => return None,
    };
    let k = match first_part_exec(parts, &owner) {
        Some(k) => k,
        None => return None,
    };
    let has = has_feature(&parts[k].feature_map, &name);
    proof {
        assert(feature_ref_target(parts@, ref_text@) == if has_feature_named(parts@[k as int].feature_map@, name@) {
            Some((parts@[k as int].ref_text@, ref_text@))
        } else {
            None
        });
    }
    if has {
        Some((parts[k].ref_text.clone(), ref_text.to_owned()))
    } else {
        None
    }
}

fn has_feature(features: &Vec<MeshFeature>, name: &[char]) -> (r: bool)
    ensures
        r == has_feature_named(features@, name@),
{
    let mut m: usize = 0;
    while m < features.len()
        invariant
            m <= features.len(),
            forall|q: int| 0 <= q < m ==> features@[q].feature@ != name@,
        decreases features.len() - m,
    {
        if seq_eq(&chars_of(features[m].feature.as_str()), name) {
            proof {
                assert(features@[m as int].feature@ == name@);
            }
            return true;
        }
        m = m + 1;
    }
    false
}

/// What a selection ref resolves to in a result, if anything.
pub fn resolved_selection_target(parts: &Vec<MeshPart>, ref_text: &str) -> (r: Option<(String, String)>)
    ensures
        pair_view(r) == selection_target(parts@, ref_text@),
{
    match resolve_face_ref(parts, ref_text) {
        Some(t) => Some(t),
        None => resolve_feature_ref(parts, ref_text),
    }
}

// ---------------------------------------------------------------------------
// Feature keys of a source

pub open spec fn is_quote(c: char) -> bool {
    c == '"' || c == '\''
}

/// The pieces of a text between quote marks (`"` or `'`).
pub open spec fn quote_pieces(s: Seq<char>) -> Seq<Seq<char>>
    decreases s.len(),
{
    if s.len() == 0 {
        seq![Seq::<char>::empty()]
    } else {
        let p = quote_pieces(s.drop_last());
        if is_quote(s.last()) {
            p.push(Seq::<char>::empty())
        } else {
            p.update(p.len() - 1, p.last().push(s.last()))
        }
    }
}

proof fn lemma_quote_pieces_nonempty(s: Seq<char>)
    ensures
        quote_pieces(s).len() >= 1,
    decreases s.len(),
{
    if s.len() > 0 {
        lemma_quote_pieces_nonempty(s.drop_last());
    }
}

/// Every second piece, from the second on: the quoted texts.
pub open spec fn quoted_texts(p: Seq<Seq<char>>) -> Seq<Seq<char>> {
    Seq::new((p.len() / 2) as nat, |i: int| p[2 * i + 1])
}

/// The keys up to the first `selector`, without `type` and `features`.
pub open spec fn key_scan(q: Seq<Seq<char>>) -> (Seq<Seq<char>>, bool)
    decreases q.len(),
{
    if q.len() == 0 {
        (Seq::empty(), false)
    } else {
        let prev = key_scan(q.drop_last());
        let k = q.last();
        if prev.1 || k == "selector"@ {
            (prev.0, true)
        } else if k == "type"@ || k == "features"@ {
            prev
        } else {
            (prev.0.push(k), false)
        }
    }
}

/// Where the `features` entry of a source starts: its double-quoted name,
/// else its single-quoted one.
pub open spec fn features_index(source: Seq<char>) -> Option<int> {
    match find(source, "\"features\""@) {
        Some(i) => Some(i),
        None => find(source, "'features'"@),
    }
}

/// The first twenty feature keys after the `{` that follows the `features`
/// entry: the quoted texts up to `selector`, without `type` and
/// `features`.
pub open spec fn feature_keys_of(source: Seq<char>) -> Seq<Seq<char>> {
    match features_index(source) {
        None => Seq::empty(),
        Some(i) => match crate::text::index_of_char(source.subrange(i, source.len() as int), '{') {
            None => Seq::empty(),
            Some(o) => {
                let keys = key_scan(quoted_texts(quote_pieces(source.subrange(i + o + 1, source.len() as int)))).0;
                if keys.len() > 20 {
                    keys.take(20)
                } else {
                    keys
                }
            },
        },
    }
}

fn quote_pieces_exec(s: &[char]) -> (r: Vec<Vec<char>>)
    ensures
        views(r@) == quote_pieces(s@),
{
    let mut pieces: Vec<Vec<char>> = Vec::new();
    let mut cur: Vec<char> = Vec::new();
    let mut i: usize = 0;
    proof {
        assert(s@.take(0) =~= Seq::<char>::empty());
        assert(views(pieces@).push(cur@) =~= quote_pieces(s@.take(0)));
    }
    while i < s.len()
        invariant
            i <= s.len(),
            views(pieces@).push(cur@) == quote_pieces(s@.take(i as int)),
        decreases s.len() - i,
    {
        let ghost old_views = views(pieces@);
        let ghost old_cur = cur@;
        proof {
            assert(s@.take(i + 1).drop_last() == s@.take(i as int));
            assert(s@.take(i + 1).last() == s@[i as int]);
        }
        if s[i] == '"' || s[i] == '\'' {
            let done = cur;
            pieces.push(done);
            cur = Vec::new();
            proof {
                assert(views(pieces@) =~= old_views.push(old_cur));
                assert(views(pieces@).push(cur@) =~= old_views.push(old_cur).push(Seq::<char>::empty()));
            }
        } else {
            cur.push(s[i]);
            proof {
                let sp = old_views.push(old_cur);
                assert(sp.update(sp.len() - 1, sp.last().push(s@[i as int])) =~= old_views.push(cur@));
            }
        }
        i = i + 1;
    }
    let ghost old_views = views(pieces@);
    let ghost last = cur@;
    pieces.push(cur);
    proof {
        assert(s@.take(s@.len() as int) == s@);
        assert(views(pieces@) =~= old_views.push(last));
    }
    pieces
}

/// The keys of the quoted texts among the pieces.
fn scan_keys(pieces: &Vec<Vec<char>>) -> (r: Vec<String>)
    ensures
        crate::plan_package::string_views(r@) == key_scan(quoted_texts(views(pieces@))).0,
{
    let ghost q = quoted_texts(views(pieces@));
    let mut out: Vec<String> = Vec::new();
    let mut stopped = false;
    let mut j: usize = 0;
    let n = pieces.len() / 2;
    proof {
        assert(q.take(0) =~= Seq::<Seq<char>>::empty());
        assert(crate::plan_package::string_views(out@) =~= Seq::<Seq<char>>::empty());
    }
    while j < n
        invariant
            j <= n,
            n == pieces@.len() / 2,
            q == quoted_texts(views(pieces@)),
            key_scan(q.take(j as int)) == (crate::plan_package::string_views(out@), stopped),
        decreases n - j,
    {
        assert(2 * j + 1 < pieces.len()) by (nonlinear_arith)
            requires
                j < n,
                n == pieces@.len() / 2,
        ;
        let k = &pieces[2 * j + 1];
        proof {
            assert(q.take(j + 1).drop_last() =~= q.take(j as int));
            assert(q[j as int] == views(pieces@)[2 * j + 1]);
            assert(q.take(j + 1).last() == k@);
        }
        if stopped || eq_lit(k, "selector") {
            stopped = true;
        } else if eq_lit(k, "type") || eq_lit(k, "features") {
        } else {
            let ghost before = crate::plan_package::string_views(out@);
            out.push(string_of(k));
            proof {
                assert(crate::plan_package::string_views(out@) =~= before.push(k@));
            }
        }
        j = j + 1;
    }
    proof {
        assert(q.take(n as int) =~= q);
    }
    out
}

/// The feature keys a source's `REFS` lists, as `cadquery_analyze_source`
/// reports them.
pub fn feature_keys(source: &str) -> (r: Vec<String>)
    ensures
        crate::plan_package::string_views(r@) == feature_keys_of(source@),
{
    let s = chars_of(source);
    let i = match find_exec(&s, &chars_of("\"features\"")) {
        Some(i) => i,
        None => match find_exec(&s, &chars_of("'features'")) {
            Some(i) => i,
            None => {
                let v: Vec<String> = Vec::new();
                proof {
                    assert(crate::plan_package::string_views(v@) =~= Seq::<Seq<char>>::empty());
                }
                return v;
            },
        },
    };
    proof {
        assert(features_index(s@) == Some(i as int));
    }
    let from_i = slice_vec(&s, i, s.len());
    let o = match crate::text::index_of_char_exec(&from_i, '{') {
        Some(o) => o,
        None => {
            let v: Vec<String> = Vec::new();
            proof {
                assert(crate::plan_package::string_views(v@) =~= Seq::<Seq<char>>::empty());
            }
            return v;
        },
    };
    let rest = slice_vec(&s, i + o + 1, s.len());
    keys_after(&rest)
}

/// At most twenty keys of the quoted texts in a text.
fn keys_after(rest: &[char]) -> (r: Vec<String>)
    ensures
        crate::plan_package::string_views(r@) == ({
            let keys = key_scan(quoted_texts(quote_pieces(rest@))).0;
            if keys.len() > 20 {
                keys.take(20)
            } else {
                keys
            }
        }),
{
    let pieces = quote_pieces_exec(rest);
    let mut out = scan_keys(&pieces);
    if out.len() > 20 {
        let ghost before = crate::plan_package::string_views(out@);
        out.truncate(20);
        proof {
            assert(crate::plan_package::string_views(out@) =~= before.take(20));
        }
    }
    out
}

} // verus!
