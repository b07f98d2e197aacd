//! Character-sequence primitives shared by every textual rule of the library.
//!
//! Text is modelled as `Seq<char>`; executable code works on `Vec<char>`
//! and converts at the edges with [`chars_of`] and [`string_of`].
use vstd::prelude::*;

verus! {

/// The Unicode `White_Space` property, as `char::is_whitespace` documents it.
pub open spec fn is_ws(c: char) -> bool {
    ||| ('\u{9}' <= c && c <= '\u{d}')
    ||| c == ' '
    ||| c == '\u{85}'
    ||| c == '\u{a0}'
    ||| c == '\u{1680}'
    ||| ('\u{2000}' <= c && c <= '\u{200a}')
    ||| c == '\u{2028}'
    ||| c == '\u{2029}'
    ||| c == '\u{202f}'
    ||| c == '\u{205f}'
    ||| c == '\u{3000}'
}

pub open spec fn is_ascii_digit(c: char) -> bool {
    '0' <= c && c <= '9'
}

pub open spec fn is_ascii_alpha(c: char) -> bool {
    ('a' <= c && c <= 'z') || ('A' <= c && c <= 'Z')
}

pub open spec fn is_ascii_alnum(c: char) -> bool {
    is_ascii_digit(c) || is_ascii_alpha(c)
}

pub open spec fn ascii_lower(c: char) -> char {
    if 'A' <= c && c <= 'Z' {
        ((c as u32) + 32) as char
    } else {
        c
    }
}

pub open spec fn lower_seq(s: Seq<char>) -> Seq<char> {
    s.map_values(|c: char| ascii_lower(c))
}

/// `s` begins with `p`.
pub open spec fn starts_with(s: Seq<char>, p: Seq<char>) -> bool {
    p.len() <= s.len() && s.subrange(0, p.len() as int) == p
}

/// `s` ends with `p`.
pub open spec fn ends_with(s: Seq<char>, p: Seq<char>) -> bool {
    p.len() <= s.len() && s.subrange(s.len() - p.len(), s.len() as int) == p
}

/// `p` occurs in `s` at position `i`.
pub open spec fn occurs_at(s: Seq<char>, p: Seq<char>, i: int) -> bool {
    0 <= i && i + p.len() <= s.len() && s.subrange(i, i + p.len()) == p
}

/// `p` occurs somewhere in `s`.
pub open spec fn contains(s: Seq<char>, p: Seq<char>) -> bool {
    exists|i: int| occurs_at(s, p, i)
}

/// Leading white space removed.
pub open spec fn trim_start(s: Seq<char>) -> Seq<char>
    decreases s.len(),
{
    if s.len() > 0 && is_ws(s[0]) {
        trim_start(s.drop_first())
    } else {
        s
    }
}

/// Trailing white space removed.
pub open spec fn trim_end(s: Seq<char>) -> Seq<char>
    decreases s.len(),
{
    if s.len() > 0 && is_ws(s.last()) {
        trim_end(s.drop_last())
    } else {
        s
    }
}

/// White space removed at both ends, as `str::trim` does.
pub open spec fn trim(s: Seq<char>) -> Seq<char> {
    trim_end(trim_start(s))
}

/// Every occurrence of `c` removed from both ends, as `str::trim_matches` does.
pub open spec fn trim_char_start(s: Seq<char>, c: char) -> Seq<char>
    decreases s.len(),
{
    if s.len() > 0 && s[0] == c {
        trim_char_start(s.drop_first(), c)
    } else {
        s
    }
}

pub open spec fn trim_char_end(s: Seq<char>, c: char) -> Seq<char>
    decreases s.len(),
{
    if s.len() > 0 && s.last() == c {
        trim_char_end(s.drop_last(), c)
    } else {
        s
    }
}

pub open spec fn trim_char(s: Seq<char>, c: char) -> Seq<char> {
    trim_char_end(trim_char_start(s, c), c)
}

/// The pieces of `s` between occurrences of `d`, as `str::split` yields them.
pub open spec fn split(s: Seq<char>, d: char) -> Seq<Seq<char>>
    decreases s.len(),
{
    if s.len() == 0 {
        seq![Seq::<char>::empty()]
    } else {
        let p = split(s.drop_last(), d);
        if s.last() == d {
            p.push(Seq::<char>::empty())
        } else {
            p.update(p.len() - 1, p.last().push(s.last()))
        }
    }
}

/// Pieces joined with `d` between them, as `[..].join` does.
pub open spec fn join(segs: Seq<Seq<char>>, d: char) -> Seq<char>
    decreases segs.len(),
{
    if segs.len() == 0 {
        Seq::<char>::empty()
    } else if segs.len() == 1 {
        segs[0]
    } else {
        join(segs.drop_last(), d).push(d) + segs.last()
    }
}

/// Every `from` replaced with `to`.
pub open spec fn replace_char(s: Seq<char>, from: char, to: char) -> Seq<char> {
    s.map_values(|c: char| if c == from { to } else { c })
}

/// The first occurrence of `c` in `s`.
pub open spec fn index_of_char(s: Seq<char>, c: char) -> Option<int> {
    if exists|i: int| 0 <= i < s.len() && s[i] == c {
        Some(choose|i: int| 0 <= i < s.len() && s[i] == c && forall|j: int| 0 <= j < i ==> s[j] != c)
    } else {
        None
    }
}

/// The first position at which `p` occurs in `s`.
#[verifier::opaque]
pub open spec fn find(s: Seq<char>, p: Seq<char>) -> Option<int> {
    if contains(s, p) {
        Some(choose|i: int| occurs_at(s, p, i) && forall|j: int| 0 <= j < i ==> !occurs_at(s, p, j))
    } else {
        None
    }
}

/// `s` with the prefix `p` removed, when it has it.
pub open spec fn strip_prefix(s: Seq<char>, p: Seq<char>) -> Option<Seq<char>> {
    if starts_with(s, p) {
        Some(s.subrange(p.len() as int, s.len() as int))
    } else {
        None
    }
}

/// `s` with the suffix `p` removed, when it has it.
pub open spec fn strip_suffix(s: Seq<char>, p: Seq<char>) -> Option<Seq<char>> {
    if ends_with(s, p) {
        Some(s.subrange(0, s.len() - p.len()))
    } else {
        None
    }
}

/// The text before and after the first `c`, as `str::split_once` gives them.
pub open spec fn split_once(s: Seq<char>, c: char) -> Option<(Seq<char>, Seq<char>)> {
    match index_of_char(s, c) {
        Some(i) => Some((s.subrange(0, i), s.subrange(i + 1, s.len() as int))),
        None => None,
    }
}

/// `s` with one trailing `'\r'` removed.
pub open spec fn strip_cr(s: Seq<char>) -> Seq<char> {
    if s.len() > 0 && s.last() == '\r' {
        s.drop_last()
    } else {
        s
    }
}

/// The lines of `s`, as `str::lines` yields them: pieces between `'\n'`, each
/// one that a `'\n'` ended losing one `'\r'`, and no empty last piece.
pub open spec fn strip_cr_all(p: Seq<Seq<char>>) -> Seq<Seq<char>> {
    p.map_values(|l: Seq<char>| strip_cr(l))
}

pub open spec fn lines(s: Seq<char>) -> Seq<Seq<char>> {
    let p = split(s, '\n');
    let ended = strip_cr_all(p.drop_last());
    if p.last().len() == 0 {
        ended
    } else {
        ended.push(p.last())
    }
}

pub proof fn lemma_find_occurs(s: Seq<char>, p: Seq<char>)
    ensures
        find(s, p) matches Some(i) ==> occurs_at(s, p, i),
{
    reveal(find);
    if contains(s, p) {
        let w = choose|i: int| occurs_at(s, p, i);
        assert(occurs_at(s, p, w));
        lemma_first_occurrence_exists(s, p, w);
    }
}

proof fn lemma_first_occurrence_exists(s: Seq<char>, p: Seq<char>, w: int)
    requires
        occurs_at(s, p, w),
    ensures
        exists|i: int| occurs_at(s, p, i) && forall|j: int| 0 <= j < i ==> !occurs_at(s, p, j),
    decreases w,
{
    if exists|j: int| 0 <= j < w && occurs_at(s, p, j) {
        let j = choose|j: int| 0 <= j < w && occurs_at(s, p, j);
        lemma_first_occurrence_exists(s, p, j);
    } else {
        assert(occurs_at(s, p, w) && forall|j: int| 0 <= j < w ==> !occurs_at(s, p, j));
    }
}

pub proof fn lemma_index_of_char(s: Seq<char>, c: char)
    ensures
        index_of_char(s, c) matches Some(i) ==> 0 <= i < s.len() && s[i] == c,
{
    reveal(index_of_char);
    if exists|i: int| 0 <= i < s.len() && s[i] == c {
        let w = choose|i: int| 0 <= i < s.len() && s[i] == c;
        lemma_first_char_exists(s, c, w);
    }
}

proof fn lemma_first_char_exists(s: Seq<char>, c: char, w: int)
    requires
        0 <= w < s.len() && s[w] == c,
    ensures
        exists|i: int| 0 <= i < s.len() && s[i] == c && forall|j: int| 0 <= j < i ==> s[j] != c,
    decreases w,
{
    if exists|j: int| 0 <= j < w && s[j] == c {
        let j = choose|j: int| 0 <= j < w && s[j] == c;
        lemma_first_char_exists(s, c, j);
    } else {
        assert(0 <= w < s.len() && s[w] == c && forall|j: int| 0 <= j < w ==> s[j] != c);
    }
}

pub proof fn lemma_split_nonempty(s: Seq<char>, d: char)
    ensures
        split(s, d).len() >= 1,
    decreases s.len(),
{
    if s.len() > 0 {
        lemma_split_nonempty(s.drop_last(), d);
    }
}

/// The pieces never hold the separator.
pub proof fn lemma_split_pieces_free(s: Seq<char>, d: char)
    ensures
        forall|k: int, j: int|
            0 <= k < split(s, d).len() && 0 <= j < split(s, d)[k].len() ==> split(s, d)[k][j]
                != d,
    decreases s.len(),
{
    lemma_split_nonempty(s, d);
    if s.len() > 0 {
        lemma_split_pieces_free(s.drop_last(), d);
        lemma_split_nonempty(s.drop_last(), d);
        let p = split(s.drop_last(), d);
        if s.last() != d {
            assert forall|k: int, j: int|
                0 <= k < split(s, d).len() && 0 <= j < split(s, d)[k].len() implies split(
                s,
                d,
            )[k][j] != d by {
                if k == p.len() - 1 {
                    if j < p.last().len() {
                        assert(split(s, d)[k][j] == p[k][j]);
                    }
                } else {
                    assert(split(s, d)[k] == p[k]);
                }
            }
        } else {
            assert forall|k: int, j: int|
                0 <= k < split(s, d).len() && 0 <= j < split(s, d)[k].len() implies split(
                s,
                d,
            )[k][j] != d by {
                if k < p.len() {
                    assert(split(s, d)[k] == p[k]);
                }
            }
        }
    }
}

// ---------------------------------------------------------------------------
// Executable primitives

#[verifier::external_body]
fn push_char(s: &mut String, c: char)
    ensures
        final(s)@ == old(s)@.push(c),
{
    s.push(c);
}

/// The characters of `s`.
pub fn chars_of(s: &str) -> (r: Vec<char>)
    ensures
        r@ == s@,
{
    let mut r: Vec<char> = Vec::new();
    for c in it: s.chars()
        invariant
            r@ == s@.take(it.index() as int),
            it.seq() == s@,
    {
        r.push(c);
        proof {
            assert(s@.take(it.index() + 1) == s@.take(it.index() as int).push(c));
        }
    }
    proof {
        assert(s@.take(s@.len() as int) == s@);
    }
    r
}

/// A `String` holding exactly `cs`.
pub fn string_of(cs: &[char]) -> (r: String)
    ensures
        r@ == cs@,
{
    let mut r = String::new();
    let mut i: usize = 0;
    while i < cs.len()
        invariant
            i <= cs.len(),
            r@ == cs@.take(i as int),
        decreases cs.len() - i,
    {
        push_char(&mut r, cs[i]);
        proof {
            assert(cs@.take(i + 1) == cs@.take(i as int).push(cs@[i as int]));
        }
        i = i + 1;
    }
    proof {
        assert(cs@.take(cs@.len() as int) == cs@);
    }
    r
}


/// The views of a vector of texts.
pub open spec fn views(v: Seq<Vec<char>>) -> Seq<Seq<char>> {
    v.map_values(|x: Vec<char>| x@)
}

/// Whether two texts are equal.
pub fn seq_eq(a: &[char], b: &[char]) -> (r: bool)
    ensures
        r == (a@ == b@),
{
    if a.len() != b.len() {
        return false;
    }
    let mut i: usize = 0;
    while i < a.len()
        invariant
            a.len() == b.len(),
            i <= a.len(),
            forall|j: int| 0 <= j < i ==> a@[j] == b@[j],
        decreases a.len() - i,
    {
        if a[i] != b[i] {
            return false;
        }
        i = i + 1;
    }
    proof {
        assert(a@ =~= b@);
    }
    true
}

/// Whether `a` equals the literal `lit`.
pub fn eq_lit(a: &[char], lit: &str) -> (r: bool)
    ensures
        r == (a@ == lit@),
{
    let l = chars_of(lit);
    seq_eq(a, &l)
}

/// Whether `p` occurs in `s` at position `i`.
pub fn occurs_at_exec(s: &[char], p: &[char], i: usize) -> (r: bool)
    ensures
        r == occurs_at(s@, p@, i as int),
{
    if i > s.len() || p.len() > s.len() - i {
        return false;
    }
    let mut k: usize = 0;
    while k < p.len()
        invariant
            i + p.len() <= s.len(),
            k <= p.len(),
            forall|j: int| 0 <= j < k ==> s@[i + j] == p@[j],
        decreases p.len() - k,
    {
        if s[i + k] != p[k] {
            proof {
                assert(s@.subrange(i as int, i + p@.len())[k as int] != p@[k as int]);
            }
            return false;
        }
        k = k + 1;
    }
    proof {
        assert(s@.subrange(i as int, i + p@.len()) =~= p@);
    }
    true
}

/// Whether `s` begins with `p`.
pub fn starts_with_exec(s: &[char], p: &[char]) -> (r: bool)
    ensures
        r == starts_with(s@, p@),
{
    occurs_at_exec(s, p, 0)
}

/// Whether `s` begins with the literal `lit`.
pub fn starts_with_lit(s: &[char], lit: &str) -> (r: bool)
    ensures
        r == starts_with(s@, lit@),
{
    let l = chars_of(lit);
    starts_with_exec(s, &l)
}

/// Whether `s` ends with `p`.
pub fn ends_with_exec(s: &[char], p: &[char]) -> (r: bool)
    ensures
        r == ends_with(s@, p@),
{
    if p.len() > s.len() {
        return false;
    }
    occurs_at_exec(s, p, s.len() - p.len())
}

/// Whether `s` ends with the literal `lit`.
pub fn ends_with_lit(s: &[char], lit: &str) -> (r: bool)
    ensures
        r == ends_with(s@, lit@),
{
    let l = chars_of(lit);
    ends_with_exec(s, &l)
}

/// The first position at which `p` occurs in `s` at or after `from`.
pub fn find_from(s: &[char], p: &[char], from: usize) -> (r: Option<usize>)
    ensures
        match r {
            Some(i) => from <= i && occurs_at(s@, p@, i as int) && forall|j: int|
                from <= j < i ==> !occurs_at(s@, p@, j),
            None => forall|j: int| from <= j ==> !occurs_at(s@, p@, j),
        },
{
    let mut i: usize = from;
    while i < s.len()
        invariant
            from <= i,
            forall|j: int| from <= j < i ==> !occurs_at(s@, p@, j),
        decreases s.len() - i,
    {
        if occurs_at_exec(s, p, i) {
            return Some(i);
        }
        i = i + 1;
    }
    if occurs_at_exec(s, p, i) {
        return Some(i);
    }
    None
}

/// The first position at which `p` occurs in `s`.
pub fn find_exec(s: &[char], p: &[char]) -> (r: Option<usize>)
    ensures
        match r {
            Some(i) => find(s@, p@) == Some(i as int) && occurs_at(s@, p@, i as int),
            None => find(s@, p@) is None,
        },
{
    let r = find_from(s, p, 0);
    proof {
        reveal(find);
    }
    match r {
        Some(i) => {
            proof {
                assert(contains(s@, p@));
                let c = choose|k: int|
                    occurs_at(s@, p@, k) && forall|j: int| 0 <= j < k ==> !occurs_at(s@, p@, j);
                assert(occurs_at(s@, p@, i as int) && forall|j: int|
                    0 <= j < i ==> !occurs_at(s@, p@, j));
                if c < i {
                } else if c > i {
                }
            }
        },
        None => {},
    }
    r
}

/// Whether `p` occurs in `s`.
pub fn contains_exec(s: &[char], p: &[char]) -> (r: bool)
    ensures
        r == contains(s@, p@),
{
    let r = find_from(s, p, 0);
    match r {
        Some(_) => true,
        None => {
            proof {
                assert(forall|j: int| !occurs_at(s@, p@, j));
            }
            false
        },
    }
}

/// Whether the literal `lit` occurs in `s`.
pub fn contains_lit(s: &[char], lit: &str) -> (r: bool)
    ensures
        r == contains(s@, lit@),
{
    let l = chars_of(lit);
    contains_exec(s, &l)
}

/// Whether `c` occurs in `s`.
pub fn has_char(s: &[char], c: char) -> (r: bool)
    ensures
        r == (exists|i: int| 0 <= i < s@.len() && s@[i] == c),
{
    let mut i: usize = 0;
    while i < s.len()
        invariant
            i <= s.len(),
            forall|j: int| 0 <= j < i ==> s@[j] != c,
        decreases s.len() - i,
    {
        if s[i] == c {
            return true;
        }
        i = i + 1;
    }
    false
}

/// The first position of `c` in `s`.
pub fn index_of_char_exec(s: &[char], c: char) -> (r: Option<usize>)
    ensures
        match r {
            Some(i) => index_of_char(s@, c) == Some(i as int) && i < s@.len() && s@[i as int] == c,
            None => index_of_char(s@, c) is None,
        },
{
    let mut i: usize = 0;
    proof {
        reveal(index_of_char);
    }
    while i < s.len()
        invariant
            i <= s.len(),
            forall|j: int| 0 <= j < i ==> s@[j] != c,
        decreases s.len() - i,
    {
        if s[i] == c {
            proof {
                reveal(index_of_char);
                let k = choose|k: int| 0 <= k < s@.len() && s@[k] == c && forall|j: int| 0 <= j < k ==> s@[j] != c;
                assert(0 <= i < s@.len() && s@[i as int] == c && forall|j: int| 0 <= j < i ==> s@[j] != c);
                if k < i {} else if k > i {}
            }
            return Some(i);
        }
        i = i + 1;
    }
    None
}

/// The text between `from` and `to`.
pub fn slice_vec(s: &[char], from: usize, to: usize) -> (r: Vec<char>)
    requires
        from <= to <= s.len(),
    ensures
        r@ == s@.subrange(from as int, to as int),
{
    let mut r: Vec<char> = Vec::new();
    let mut i: usize = from;
    while i < to
        invariant
            from <= i <= to <= s.len(),
            r@ == s@.subrange(from as int, i as int),
        decreases to - i,
    {
        r.push(s[i]);
        proof {
            assert(s@.subrange(from as int, i + 1) == s@.subrange(from as int, i as int).push(s@[i as int]));
        }
        i = i + 1;
    }
    r
}

/// `a` followed by `b`.
pub fn concat(a: &[char], b: &[char]) -> (r: Vec<char>)
    ensures
        r@ == a@ + b@,
{
    let mut r = slice_vec(a, 0, a.len());
    let mut i: usize = 0;
    while i < b.len()
        invariant
            i <= b.len(),
            r@ == a@ + b@.take(i as int),
        decreases b.len() - i,
    {
        r.push(b[i]);
        proof {
            assert(b@.take(i + 1) == b@.take(i as int).push(b@[i as int]));
            assert(a@ + b@.take(i + 1) == (a@ + b@.take(i as int)).push(b@[i as int]));
        }
        i = i + 1;
    }
    proof {
        assert(a@.subrange(0, a@.len() as int) == a@);
        assert(b@.take(b@.len() as int) == b@);
    }
    r
}

/// Appends `b` to `a`.
pub fn append_chars(a: &mut Vec<char>, b: &[char])
    ensures
        final(a)@ == old(a)@ + b@,
{
    let mut i: usize = 0;
    while i < b.len()
        invariant
            i <= b.len(),
            a@ == old(a)@ + b@.take(i as int),
        decreases b.len() - i,
    {
        a.push(b[i]);
        proof {
            assert(b@.take(i + 1) == b@.take(i as int).push(b@[i as int]));
            assert(old(a)@ + b@.take(i + 1) == (old(a)@ + b@.take(i as int)).push(b@[i as int]));
        }
        i = i + 1;
    }
    proof {
        assert(b@.take(b@.len() as int) == b@);
    }
}

/// Appends the literal `lit` to `a`.
pub fn append_lit(a: &mut Vec<char>, lit: &str)
    ensures
        final(a)@ == old(a)@ + lit@,
{
    let l = chars_of(lit);
    append_chars(a, &l);
}

/// `prefix`, then `mid`, then `suffix`.
pub fn surround(prefix: &str, mid: &[char], suffix: &str) -> (r: Vec<char>)
    ensures
        r@ == prefix@ + mid@ + suffix@,
{
    let mut r = chars_of(prefix);
    append_chars(&mut r, mid);
    append_lit(&mut r, suffix);
    r
}

/// Texts joined with the text `sep` between them.
pub open spec fn join_with(items: Seq<Seq<char>>, sep: Seq<char>) -> Seq<char>
    decreases items.len(),
{
    if items.len() == 0 {
        Seq::<char>::empty()
    } else if items.len() == 1 {
        items[0]
    } else {
        join_with(items.drop_last(), sep) + sep + items.last()
    }
}

pub open spec fn str_seq_views(v: Seq<&'static str>) -> Seq<Seq<char>> {
    v.map_values(|s: &'static str| s@)
}

/// Literals joined with `sep` between them.
pub fn join_strs(items: &Vec<&'static str>, sep: &str) -> (r: Vec<char>)
    ensures
        r@ == join_with(str_seq_views(items@), sep@),
{
    let mut r: Vec<char> = Vec::new();
    let mut i: usize = 0;
    proof {
        assert(str_seq_views(items@).take(0) =~= Seq::<Seq<char>>::empty());
    }
    while i < items.len()
        invariant
            i <= items.len(),
            r@ == join_with(str_seq_views(items@).take(i as int), sep@),
        decreases items.len() - i,
    {
        let ghost pre = str_seq_views(items@).take(i as int);
        proof {
            assert(str_seq_views(items@).take(i + 1).drop_last() =~= pre);
            assert(str_seq_views(items@).take(i + 1).last() == items@[i as int]@);
        }
        if i > 0 {
            append_lit(&mut r, sep);
        } else {
            proof {
                assert(str_seq_views(items@).take(1) =~= seq![items@[0]@]);
            }
        }
        let ghost mid = r@;
        append_lit(&mut r, items[i]);
        proof {
            if i == 0 {
                assert(r@ =~= items@[0]@);
            }
        }
        i = i + 1;
    }
    proof {
        assert(str_seq_views(items@).take(items@.len() as int) =~= str_seq_views(items@));
    }
    r
}

pub proof fn lemma_trim_start_skip(s: Seq<char>, k: int)
    requires
        0 <= k <= s.len(),
        forall|j: int| 0 <= j < k ==> is_ws(s[j]),
    ensures
        trim_start(s) == trim_start(s.subrange(k, s.len() as int)),
    decreases k,
{
    if k > 0 {
        assert(s.drop_first().subrange(k - 1, s.drop_first().len() as int) == s.subrange(k, s.len() as int));
        lemma_trim_start_skip(s.drop_first(), k - 1);
    } else {
        assert(s.subrange(0, s.len() as int) == s);
    }
}

pub proof fn lemma_trim_end_cut(s: Seq<char>, k: int)
    requires
        0 <= k <= s.len(),
        forall|j: int| k <= j < s.len() ==> is_ws(s[j]),
    ensures
        trim_end(s) == trim_end(s.subrange(0, k)),
    decreases s.len() - k,
{
    if k < s.len() {
        assert(s.drop_last().subrange(0, k) == s.subrange(0, k));
        lemma_trim_end_cut(s.drop_last(), k);
    } else {
        assert(s.subrange(0, k) == s);
    }
}

/// Whether `c` is white space.
pub fn is_ws_exec(c: char) -> (r: bool)
    ensures
        r == is_ws(c),
{
    ('\u{9}' <= c && c <= '\u{d}') || c == ' ' || c == '\u{85}' || c == '\u{a0}' || c == '\u{1680}'
        || ('\u{2000}' <= c && c <= '\u{200a}') || c == '\u{2028}' || c == '\u{2029}' || c
        == '\u{202f}' || c == '\u{205f}' || c == '\u{3000}'
}

/// `s` without leading white space.
pub fn trim_start_exec(s: &[char]) -> (r: Vec<char>)
    ensures
        r@ == trim_start(s@),
{
    let mut k: usize = 0;
    while k < s.len() && is_ws_exec(s[k])
        invariant
            k <= s.len(),
            forall|j: int| 0 <= j < k ==> is_ws(s@[j]),
        decreases s.len() - k,
    {
        k = k + 1;
    }
    proof {
        lemma_trim_start_skip(s@, k as int);
    }
    slice_vec(s, k, s.len())
}

/// `s` without trailing white space.
pub fn trim_end_exec(s: &[char]) -> (r: Vec<char>)
    ensures
        r@ == trim_end(s@),
{
    let mut k: usize = s.len();
    while k > 0 && is_ws_exec(s[k - 1])
        invariant
            k <= s.len(),
            forall|j: int| k <= j < s.len() ==> is_ws(s@[j]),
        decreases k,
    {
        k = k - 1;
    }
    proof {
        lemma_trim_end_cut(s@, k as int);
    }
    slice_vec(s, 0, k)
}

/// `s` without white space at either end.
pub fn trim_exec(s: &[char]) -> (r: Vec<char>)
    ensures
        r@ == trim(s@),
{
    let a = trim_start_exec(s);
    trim_end_exec(&a)
}

pub proof fn lemma_trim_char_start_skip(s: Seq<char>, c: char, k: int)
    requires
        0 <= k <= s.len(),
        forall|j: int| 0 <= j < k ==> s[j] == c,
    ensures
        trim_char_start(s, c) == trim_char_start(s.subrange(k, s.len() as int), c),
    decreases k,
{
    if k > 0 {
        assert(s.drop_first().subrange(k - 1, s.drop_first().len() as int) == s.subrange(k, s.len() as int));
        lemma_trim_char_start_skip(s.drop_first(), c, k - 1);
    } else {
        assert(s.subrange(0, s.len() as int) == s);
    }
}

pub proof fn lemma_trim_char_end_cut(s: Seq<char>, c: char, k: int)
    requires
        0 <= k <= s.len(),
        forall|j: int| k <= j < s.len() ==> s[j] == c,
    ensures
        trim_char_end(s, c) == trim_char_end(s.subrange(0, k), c),
    decreases s.len() - k,
{
    if k < s.len() {
        assert(s.drop_last().subrange(0, k) == s.subrange(0, k));
        lemma_trim_char_end_cut(s.drop_last(), c, k);
    } else {
        assert(s.subrange(0, k) == s);
    }
}

/// `s` without `c` at either end.
pub fn trim_char_exec(s: &[char], c: char) -> (r: Vec<char>)
    ensures
        r@ == trim_char(s@, c),
{
    let mut k: usize = 0;
    while k < s.len() && s[k] == c
        invariant
            k <= s.len(),
            forall|j: int| 0 <= j < k ==> s@[j] == c,
        decreases s.len() - k,
    {
        k = k + 1;
    }
    proof {
        lemma_trim_char_start_skip(s@, c, k as int);
    }
    let a = slice_vec(s, k, s.len());
    let mut e: usize = a.len();
    while e > 0 && a[e - 1] == c
        invariant
            e <= a.len(),
            forall|j: int| e <= j < a.len() ==> a@[j] == c,
        decreases e,
    {
        e = e - 1;
    }
    proof {
        lemma_trim_char_end_cut(a@, c, e as int);
    }
    slice_vec(&a, 0, e)
}

/// `s` with every `from` replaced by `to`.
pub fn replace_char_exec(s: &[char], from: char, to: char) -> (r: Vec<char>)
    ensures
        r@ == replace_char(s@, from, to),
{
    let mut r: Vec<char> = Vec::new();
    let mut i: usize = 0;
    while i < s.len()
        invariant
            i <= s.len(),
            r@ == replace_char(s@.take(i as int), from, to),
        decreases s.len() - i,
    {
        let c = if s[i] == from { to } else { s[i] };
        r.push(c);
        proof {
            assert(replace_char(s@.take(i + 1), from, to) =~= replace_char(s@.take(i as int), from, to).push(c));
        }
        i = i + 1;
    }
    proof {
        assert(s@.take(s@.len() as int) == s@);
    }
    r
}

/// The pieces of `s` between occurrences of `d`.
pub fn split_exec(s: &[char], d: char) -> (r: Vec<Vec<char>>)
    ensures
        views(r@) == split(s@, d),
{
    let mut pieces: Vec<Vec<char>> = Vec::new();
    let mut cur: Vec<char> = Vec::new();
    let mut i: usize = 0;
    proof {
        assert(s@.take(0) =~= Seq::<char>::empty());
        assert(views(pieces@).push(cur@) =~= split(s@.take(0), d));
    }
    while i < s.len()
        invariant
            i <= s.len(),
            views(pieces@).push(cur@) == split(s@.take(i as int), d),
        decreases s.len() - i,
    {
        let ghost before = s@.take(i as int);
        let ghost old_views = views(pieces@);
        let ghost old_cur = cur@;
        proof {
            assert(s@.take(i + 1).drop_last() == before);
            assert(s@.take(i + 1).last() == s@[i as int]);
            assert(s@.take(i + 1).len() > 0);
        }
        if s[i] == d {
            let done = cur;
            pieces.push(done);
            cur = Vec::new();
            proof {
                assert(views(pieces@) =~= old_views.push(old_cur));
                assert(views(pieces@).push(cur@) =~= old_views.push(old_cur).push(Seq::<char>::empty()));
            }
        } else {
            cur.push(s[i]);
            proof {
                let sp = old_views.push(old_cur);
                assert(sp.update(sp.len() - 1, sp.last().push(s@[i as int])) =~= old_views.push(cur@));
            }
        }
        i = i + 1;
    }
    let ghost old_views = views(pieces@);
    let ghost last = cur@;
    pieces.push(cur);
    proof {
        assert(s@.take(s@.len() as int) == s@);
        assert(views(pieces@) =~= old_views.push(last));
    }
    pieces
}


/// Pieces joined with `d` between them.
pub fn join_exec(segs: &Vec<Vec<char>>, d: char) -> (r: Vec<char>)
    ensures
        r@ == join(views(segs@), d),
{
    let mut r: Vec<char> = Vec::new();
    let mut i: usize = 0;
    proof {
        assert(views(segs@).take(0) =~= Seq::<Seq<char>>::empty());
    }
    while i < segs.len()
        invariant
            i <= segs.len(),
            r@ == join(views(segs@).take(i as int), d),
        decreases segs.len() - i,
    {
        proof {
            let t = views(segs@).take(i + 1);
            assert(t.drop_last() =~= views(segs@).take(i as int));
            assert(t.last() == segs@[i as int]@);
        }
        if i > 0 {
            r.push(d);
        } else {
            proof {
                assert(views(segs@).take(1) =~= seq![segs@[0]@]);
            }
        }
        append_chars(&mut r, segs[i].as_slice());
        i = i + 1;
    }
    proof {
        assert(views(segs@).take(segs@.len() as int) =~= views(segs@));
    }
    r
}

/// `s` without one trailing carriage return.
pub fn strip_cr_exec(s: &[char]) -> (r: Vec<char>)
    ensures
        r@ == strip_cr(s@),
{
    if s.len() > 0 && s[s.len() - 1] == '\r' {
        slice_vec(s, 0, s.len() - 1)
    } else {
        slice_vec(s, 0, s.len())
    }
}

/// The lines of `s`.
pub fn lines_exec(s: &[char]) -> (r: Vec<Vec<char>>)
    ensures
        views(r@) == lines(s@),
{
    let pieces = split_exec(s, '\n');
    proof {
        lemma_split_nonempty(s@, '\n');
    }
    let ghost p = split(s@, '\n');
    let n = pieces.len();
    let mut r: Vec<Vec<char>> = Vec::new();
    let mut i: usize = 0;
    while i + 1 < n
        invariant
            n == pieces.len(),
            n >= 1,
            views(pieces@) == p,
            i + 1 <= n,
            views(r@) == strip_cr_all(p.drop_last()).take(i as int),
        decreases n - i,
    {
        let line = strip_cr_exec(pieces[i].as_slice());
        let ghost before = views(r@);
        r.push(line);
        proof {
            assert(views(r@) =~= before.push(line@));
            assert(strip_cr_all(p.drop_last()).take(i + 1) =~= strip_cr_all(p.drop_last()).take(i as int).push(strip_cr(p[i as int])));
        }
        i = i + 1;
    }
    proof {
        assert(strip_cr_all(p.drop_last()).take(i as int) =~= strip_cr_all(p.drop_last()));
    }
    proof {
        assert(p.last() == views(pieces@)[n - 1]);
    }
    if pieces[n - 1].len() > 0 {
        let last = slice_vec(pieces[n - 1].as_slice(), 0, pieces[n - 1].len());
        let ghost before = views(r@);
        r.push(last);
        proof {
            assert(views(r@) =~= before.push(last@));
            assert(p.last() == pieces@[n - 1]@);
            assert(pieces@[n - 1]@.subrange(0, pieces@[n - 1]@.len() as int) =~= pieces@[n - 1]@);
            assert(views(r@) == strip_cr_all(p.drop_last()).push(p.last()));
        }
    } else {
        assert(views(r@) == strip_cr_all(p.drop_last()));
    }
    assert(lines(s@) == (if p.last().len() == 0 { strip_cr_all(p.drop_last()) } else { strip_cr_all(p.drop_last()).push(p.last()) }));
    r
}

/// The text before and after the first `c`.
pub fn split_once_exec(s: &[char], c: char) -> (r: Option<(Vec<char>, Vec<char>)>)
    ensures
        match r {
            Some((a, b)) => split_once(s@, c) == Some((a@, b@)),
            None => split_once(s@, c) is None,
        },
{
    let found = index_of_char_exec(s, c);
    match found {
        Some(i) => {
            assert(i < s.len());
            Some((slice_vec(s, 0, i), slice_vec(s, i + 1, s.len())))
        },
        None => None,
    }
}

/// `s` without the literal prefix `lit`, when it has it.
pub fn strip_prefix_lit(s: &[char], lit: &str) -> (r: Option<Vec<char>>)
    ensures
        match r {
            Some(v) => strip_prefix(s@, lit@) == Some(v@),
            None => strip_prefix(s@, lit@) is None,
        },
{
    let l = chars_of(lit);
    if starts_with_exec(s, &l) {
        Some(slice_vec(s, l.len(), s.len()))
    } else {
        None
    }
}

/// `s` without the literal suffix `lit`, when it has it.
pub fn strip_suffix_lit(s: &[char], lit: &str) -> (r: Option<Vec<char>>)
    ensures
        match r {
            Some(v) => strip_suffix(s@, lit@) == Some(v@),
            None => strip_suffix(s@, lit@) is None,
        },
{
    let l = chars_of(lit);
    if ends_with_exec(s, &l) {
        Some(slice_vec(s, 0, s.len() - l.len()))
    } else {
        None
    }
}

/// `s` with ASCII capitals made small.
pub fn lower_exec(s: &[char]) -> (r: Vec<char>)
    ensures
        r@ == lower_seq(s@),
{
    let mut r: Vec<char> = Vec::new();
    let mut i: usize = 0;
    while i < s.len()
        invariant
            i <= s.len(),
            r@ == lower_seq(s@.take(i as int)),
        decreases s.len() - i,
    {
        let c = s[i];
        let l = if 'A' <= c && c <= 'Z' { ascii_lower_exec(c) } else { c };
        r.push(l);
        proof {
            assert(lower_seq(s@.take(i + 1)) =~= lower_seq(s@.take(i as int)).push(ascii_lower(c)));
        }
        i = i + 1;
    }
    proof {
        assert(s@.take(s@.len() as int) == s@);
    }
    r
}

/// The small letter of an ASCII capital.
pub fn ascii_lower_exec(c: char) -> (r: char)
    ensures
        r == ascii_lower(c),
{
    if 'A' <= c && c <= 'Z' {
        let v: u32 = (c as u32) + 32;
        char_from_ascii(v)
    } else {
        c
    }
}

/// The character with the given code below 128.
fn char_from_ascii(v: u32) -> (r: char)
    requires
        v < 128,
    ensures
        r == v as char,
{
    let b: u8 = v as u8;
    b as char
}

/// Whether `c` is an ASCII letter or digit.
pub fn is_ascii_alnum_exec(c: char) -> (r: bool)
    ensures
        r == is_ascii_alnum(c),
{
    ('0' <= c && c <= '9') || ('a' <= c && c <= 'z') || ('A' <= c && c <= 'Z')
}

/// Whether `c` is an ASCII digit.
pub fn is_ascii_digit_exec(c: char) -> (r: bool)
    ensures
        r == is_ascii_digit(c),
{
    '0' <= c && c <= '9'
}

} // verus!
