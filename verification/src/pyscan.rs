//! A light scanner of Python source text: string literals, comments,
//! bracket depth and dictionary bodies, as the model contract checks need.
//!
//! Positions are character indices. String literals and `#` comments are
//! skipped as units, so brackets and keys inside them do not count.
use vstd::prelude::*;
use crate::text::{lemma_find_occurs, lemma_index_of_char, index_of_char, index_of_char_exec, is_ascii_alnum, is_ascii_alnum_exec, is_ws, is_ws_exec, occurs_at, occurs_at_exec, find, find_exec, seq_eq, slice_vec};

verus! {

/// Where an unescaped `quote` is first found from `i` on; a backslash
/// escapes the character after it.
pub open spec fn quoted_end_from(s: Seq<char>, i: int, quote: char) -> Option<int>
    decreases s.len() + 1 - i,
{
    if i < 0 || i >= s.len() {
        None
    } else if s[i] == '\\' {
        quoted_end_from(s, i + 2, quote)
    } else if s[i] == quote {
        Some(i)
    } else {
        quoted_end_from(s, i + 1, quote)
    }
}

pub proof fn lemma_quoted_end_range(s: Seq<char>, i: int, quote: char)
    ensures
        quoted_end_from(s, i, quote) matches Some(e) ==> i <= e < s.len() && s[e] == quote,
    decreases s.len() + 1 - i,
{
    if 0 <= i < s.len() {
        if s[i] == '\\' {
            lemma_quoted_end_range(s, i + 2, quote);
        } else if s[i] != quote {
            lemma_quoted_end_range(s, i + 1, quote);
        }
    }
}

/// A quoted string starting at `qi`: the position after its closing quote
/// and its content.
pub open spec fn quoted_string_at(s: Seq<char>, qi: int, quote: char) -> Option<(int, Seq<char>)> {
    match quoted_end_from(s, qi + 1, quote) {
        Some(e) => Some((e + 1, s.subrange(qi + 1, e))),
        None => None,
    }
}

pub open spec fn triple(quote: char) -> Seq<char> {
    seq![quote, quote, quote]
}

/// A Python string starting at `qi`: triple-quoted when three quotes
/// start there (and `allow_triple`), else single-quoted with escapes.
pub open spec fn string_at(s: Seq<char>, qi: int, quote: char, allow_triple: bool) -> Option<(int, Seq<char>)> {
    if allow_triple && occurs_at(s, triple(quote), qi) {
        let start = qi + 3;
        match find(s.subrange(start, s.len() as int), triple(quote)) {
            Some(off) => Some((start + off + 3, s.subrange(start, start + off))),
            None => None,
        }
    } else {
        quoted_string_at(s, qi, quote)
    }
}

pub proof fn lemma_string_at_advances(s: Seq<char>, qi: int, quote: char, allow_triple: bool)
    requires
        0 <= qi < s.len(),
    ensures
        string_at(s, qi, quote, allow_triple) matches Some((e, _)) ==> qi < e <= s.len(),
{
    if allow_triple && occurs_at(s, triple(quote), qi) {
        lemma_triple_advances(s, qi, quote);
    } else {
        lemma_quoted_end_range(s, qi + 1, quote);
    }
}

proof fn lemma_triple_advances(s: Seq<char>, qi: int, quote: char)
    requires
        0 <= qi < s.len(),
        occurs_at(s, triple(quote), qi),
    ensures
        string_at(s, qi, quote, true) matches Some((e, _)) ==> qi < e <= s.len(),
{
    let start = qi + 3;
    let rest = s.subrange(start, s.len() as int);
    lemma_find_occurs(rest, triple(quote));
    if let Some(off) = find(rest, triple(quote)) {
        assert(off + 3 <= rest.len());
    }
}

/// The position after the line that `i` is on (after its `'\n'`), or the end.
pub open spec fn line_comment_end(s: Seq<char>, i: int) -> int {
    match index_of_char(s.subrange(i, s.len() as int), '\n') {
        Some(o) => i + o + 1,
        None => s.len() as int,
    }
}

pub proof fn lemma_line_comment_end(s: Seq<char>, i: int)
    requires
        0 <= i < s.len(),
    ensures
        i < line_comment_end(s, i) <= s.len(),
{
    let t = s.subrange(i, s.len() as int);
    lemma_index_of_char(t, '\n');
}

/// White space skipped from `i`.
pub open spec fn skip_ws(s: Seq<char>, i: int) -> int
    decreases s.len() - i,
{
    if 0 <= i < s.len() && is_ws(s[i]) {
        skip_ws(s, i + 1)
    } else {
        i
    }
}

/// Spaces and tabs skipped from `i`.
pub open spec fn skip_inline_ws(s: Seq<char>, i: int) -> int
    decreases s.len() - i,
{
    if 0 <= i < s.len() && (s[i] == ' ' || s[i] == '\t') {
        skip_inline_ws(s, i + 1)
    } else {
        i
    }
}

pub open spec fn is_identifier_char(c: char) -> bool {
    is_ascii_alnum(c) || c == '_'
}

/// No identifier character right before `start` or right after `start + len`.
pub open spec fn is_identifier_boundary(s: Seq<char>, start: int, len: int) -> bool {
    !(start > 0 && is_identifier_char(s[start - 1])) && !(start + len < s.len() && is_identifier_char(
        s[start + len],
    ))
}

/// The depth after one character: opening brackets deepen, closing ones
/// lift, never below zero.
pub open spec fn update_depth(c: char, depth: nat) -> nat {
    if c == '{' || c == '[' || c == '(' {
        depth + 1
    } else if c == '}' || c == ']' || c == ')' {
        if depth > 0 {
            (depth - 1) as nat
        } else {
            0
        }
    } else {
        depth
    }
}

/// Scans a brace body from `i`: strings and comments skipped, only braces
/// counted; gives the body's bounds at the brace that closes depth zero.
pub open spec fn brace_scan(s: Seq<char>, i: int, depth: nat, content_start: int) -> Option<(int, int)>
    decreases s.len() - i,
{
    if i < 0 || i >= s.len() {
        None
    } else {
        let c = s[i];
        if c == '\'' || c == '"' {
            proof {
                lemma_string_at_advances(s, i, c, false);
            }
            match string_at(s, i, c, false) {
                None => None,
                Some((e, _)) => brace_scan(s, e, depth, content_start),
            }
        } else if c == '#' {
            proof {
                lemma_line_comment_end(s, i);
            }
            brace_scan(s, line_comment_end(s, i), depth, content_start)
        } else if c == '{' {
            brace_scan(s, i + 1, depth + 1, if depth == 0 { i + 1 } else { content_start })
        } else if c == '}' {
            let d: nat = if depth > 0 { (depth - 1) as nat } else { 0 };
            if d == 0 {
                Some((content_start, i))
            } else {
                brace_scan(s, i + 1, d, content_start)
            }
        } else {
            brace_scan(s, i + 1, depth, content_start)
        }
    }
}

/// The body of the brace-delimited dictionary opening at `open`.
pub open spec fn dict_body_at(s: Seq<char>, open: int) -> Option<Seq<char>> {
    if 0 <= open < s.len() && s[open] == '{' {
        match brace_scan(s, open, 0, open) {
            Some((a, b)) => Some(s.subrange(a, b)),
            None => None,
        }
    } else {
        None
    }
}

pub proof fn lemma_brace_scan_bounds(s: Seq<char>, i: int, depth: nat, cs: int)
    requires
        0 <= cs <= i,
    ensures
        brace_scan(s, i, depth, cs) matches Some((a, b)) ==> 0 <= a <= b < s.len(),
    decreases s.len() - i,
{
    if 0 <= i < s.len() {
        let c = s[i];
        if c == '\'' || c == '"' {
            lemma_string_at_advances(s, i, c, false);
            if let Some((e, _)) = string_at(s, i, c, false) {
                lemma_brace_scan_bounds(s, e, depth, cs);
            }
        } else if c == '#' {
            lemma_line_comment_end(s, i);
            lemma_brace_scan_bounds(s, line_comment_end(s, i), depth, cs);
        } else if c == '{' {
            lemma_brace_scan_bounds(s, i + 1, depth + 1, if depth == 0 { i + 1 } else { cs });
        } else if c == '}' {
            let d: nat = if depth > 0 { (depth - 1) as nat } else { 0 };
            if d != 0 {
                lemma_brace_scan_bounds(s, i + 1, d, cs);
            }
        } else {
            lemma_brace_scan_bounds(s, i + 1, depth, cs);
        }
    }
}

/// Scans a dictionary body from `i` for a string key at depth zero followed
/// by a colon; gives the position after the colon.
pub open spec fn key_scan(s: Seq<char>, key: Seq<char>, i: int, depth: nat, allow_triple: bool) -> Option<int>
    decreases s.len() - i,
{
    if i < 0 || i >= s.len() {
        None
    } else {
        let c = s[i];
        if c == '\'' || c == '"' {
            proof {
                lemma_string_at_advances(s, i, c, allow_triple);
            }
            match string_at(s, i, c, allow_triple) {
                None => None,
                Some((e, text)) => {
                    let colon = skip_ws(s, e);
                    if depth == 0 && text == key && 0 <= colon < s.len() && s[colon] == ':' {
                        Some(colon + 1)
                    } else {
                        key_scan(s, key, e, depth, allow_triple)
                    }
                },
            }
        } else if c == '#' {
            proof {
                lemma_line_comment_end(s, i);
            }
            key_scan(s, key, line_comment_end(s, i), depth, allow_triple)
        } else {
            key_scan(s, key, i + 1, update_depth(c, depth), allow_triple)
        }
    }
}

/// Where the value of `key` starts in a dictionary body.
pub open spec fn value_start_for_key(s: Seq<char>, key: Seq<char>, allow_triple: bool) -> Option<int> {
    key_scan(s, key, 0, 0, allow_triple)
}

pub proof fn lemma_skip_ws_ge(s: Seq<char>, i: int)
    ensures
        skip_ws(s, i) >= i,
        0 <= i <= s.len() ==> skip_ws(s, i) <= s.len(),
    decreases s.len() - i,
{
    if 0 <= i < s.len() && is_ws(s[i]) {
        lemma_skip_ws_ge(s, i + 1);
    }
}

pub proof fn lemma_skip_inline_ws_ge(s: Seq<char>, i: int)
    ensures
        skip_inline_ws(s, i) >= i,
        0 <= i <= s.len() ==> skip_inline_ws(s, i) <= s.len(),
    decreases s.len() - i,
{
    if 0 <= i < s.len() && (s[i] == ' ' || s[i] == '\t') {
        lemma_skip_inline_ws_ge(s, i + 1);
    }
}

pub proof fn lemma_key_scan_bounds(s: Seq<char>, key: Seq<char>, i: int, depth: nat, t: bool)
    ensures
        key_scan(s, key, i, depth, t) matches Some(v) ==> 0 < v <= s.len(),
    decreases s.len() - i,
{
    if 0 <= i < s.len() {
        let c = s[i];
        if c == '\'' || c == '"' {
            lemma_string_at_advances(s, i, c, t);
            if let Some((e, text)) = string_at(s, i, c, t) {
                lemma_skip_ws_ge(s, e);
                lemma_key_scan_bounds(s, key, e, depth, t);
            }
        } else if c == '#' {
            lemma_line_comment_end(s, i);
            lemma_key_scan_bounds(s, key, line_comment_end(s, i), depth, t);
        } else {
            lemma_key_scan_bounds(s, key, i + 1, update_depth(c, depth), t);
        }
    }
}

// ---------------------------------------------------------------------------
// Executable scanning

/// Where the unescaped `quote` is first found from `i` on.
pub fn quoted_end_from_exec(s: &[char], i: usize, quote: char) -> (r: Option<usize>)
    ensures
        match r {
            Some(e) => quoted_end_from(s@, i as int, quote) == Some(e as int),
            None => quoted_end_from(s@, i as int, quote) is None,
        },
{
    let mut k: usize = i;
    while k < s.len()
        invariant
            i <= k,
            quoted_end_from(s@, i as int, quote) == quoted_end_from(s@, k as int, quote),
        decreases s.len() - k,
    {
        if s[k] == '\\' {
            if k + 1 >= s.len() {
                proof {
                    assert(quoted_end_from(s@, k + 2, quote) is None);
                }
                return None;
            }
            k = k + 2;
        } else if s[k] == quote {
            return Some(k);
        } else {
            k = k + 1;
        }
    }
    None
}

/// A triple-quoted string at `qi`, when three quotes start there.
#[verifier::rlimit(40)]
fn triple_string_at_exec(s: &[char], qi: usize, quote: char) -> (r: Option<(usize, Vec<char>)>)
    requires
        qi < s.len(),
        occurs_at(s@, triple(quote), qi as int),
    ensures
        match r {
            Some((e, text)) => string_at(s@, qi as int, quote, true) == Some((e as int, text@)),
            None => string_at(s@, qi as int, quote, true) is None,
        },
{
    let marker = vec![quote, quote, quote];
    proof {
        assert(marker@ =~= triple(quote));
    }
    let start = qi + 3;
    let rest = slice_vec(s, start, s.len());
    let found = find_exec(&rest, &marker);
    match found {
        Some(off) => {
            proof {
                assert(off + 3 <= rest@.len());
            }
            let body = slice_vec(s, start, start + off);
            proof {
                assert(string_at(s@, qi as int, quote, true) == Some(((start + off + 3) as int, s@.subrange(start as int, start + off))));
            }
            Some((start + off + 3, body))
        },
        None => None,
    }
}

/// A single-quoted string at `qi`, with backslash escapes.
fn quoted_string_at_exec(s: &[char], qi: usize, quote: char) -> (r: Option<(usize, Vec<char>)>)
    requires
        qi < s.len(),
    ensures
        match r {
            Some((e, text)) => quoted_string_at(s@, qi as int, quote) == Some((e as int, text@)),
            None => quoted_string_at(s@, qi as int, quote) is None,
        },
{
    match quoted_end_from_exec(s, qi + 1, quote) {
        Some(e) => {
            proof {
                lemma_quoted_end_range(s@, qi + 1, quote);
            }
            Some((e + 1, slice_vec(s, qi + 1, e)))
        },
        None => None,
    }
}

/// A Python string literal at `qi` (triple-quoted ones too when asked).
pub fn string_at_exec(s: &[char], qi: usize, quote: char, allow_triple: bool) -> (r: Option<(usize, Vec<char>)>)
    requires
        qi < s.len(),
    ensures
        match r {
            Some((e, text)) => string_at(s@, qi as int, quote, allow_triple) == Some((e as int, text@)),
            None => string_at(s@, qi as int, quote, allow_triple) is None,
        },
{
    if allow_triple {
        let marker = vec![quote, quote, quote];
        proof {
            assert(marker@ =~= triple(quote));
        }
        if occurs_at_exec(s, &marker, qi) {
            return triple_string_at_exec(s, qi, quote);
        }
    }
    quoted_string_at_exec(s, qi, quote)
}

/// The position after the line that `i` is on.
pub fn line_comment_end_exec(s: &[char], i: usize) -> (r: usize)
    requires
        i <= s.len(),
    ensures
        r == line_comment_end(s@, i as int),
{
    let rest = slice_vec(s, i, s.len());
    match index_of_char_exec(&rest, '\n') {
        Some(o) => i + o + 1,
        None => s.len(),
    }
}

/// White space skipped from `i`.
pub fn skip_ws_exec(s: &[char], i: usize) -> (r: usize)
    ensures
        r == skip_ws(s@, i as int),
{
    let mut k = i;
    while k < s.len() && is_ws_exec(s[k])
        invariant
            i <= k,
            skip_ws(s@, i as int) == skip_ws(s@, k as int),
        decreases s.len() - k,
    {
        k = k + 1;
    }
    k
}

/// Spaces and tabs skipped from `i`.
pub fn skip_inline_ws_exec(s: &[char], i: usize) -> (r: usize)
    ensures
        r == skip_inline_ws(s@, i as int),
{
    let mut k = i;
    while k < s.len() && (s[k] == ' ' || s[k] == '\t')
        invariant
            i <= k,
            skip_inline_ws(s@, i as int) == skip_inline_ws(s@, k as int),
        decreases s.len() - k,
    {
        k = k + 1;
    }
    k
}

pub fn is_identifier_char_exec(c: char) -> (r: bool)
    ensures
        r == is_identifier_char(c),
{
    is_ascii_alnum_exec(c) || c == '_'
}

/// No identifier character right before `start` or right after `start + len`.
pub fn is_identifier_boundary_exec(s: &[char], start: usize, len: usize) -> (r: bool)
    requires
        start + len <= s.len(),
    ensures
        r == is_identifier_boundary(s@, start as int, len as int),
{
    let before = start > 0 && is_identifier_char_exec(s[start - 1]);
    let after = start + len < s.len() && is_identifier_char_exec(s[start + len]);
    !before && !after
}

pub fn update_depth_exec(c: char, depth: usize) -> (r: usize)
    requires
        depth < usize::MAX,
    ensures
        r == update_depth(c, depth as nat),
{
    if c == '{' || c == '[' || c == '(' {
        depth + 1
    } else if c == '}' || c == ']' || c == ')' {
        if depth > 0 { depth - 1 } else { 0 }
    } else {
        depth
    }
}

/// The body of the brace-delimited dictionary opening at `open`.
pub fn dict_body_at_exec(s: &[char], open: usize) -> (r: Option<Vec<char>>)
    ensures
        match r {
            Some(b) => dict_body_at(s@, open as int) == Some(b@),
            None => dict_body_at(s@, open as int) is None,
        },
{
    if open >= s.len() || s[open] != '{' {
        return None;
    }
    let mut i: usize = open;
    let mut depth: usize = 0;
    let mut content_start: usize = open;
    while i < s.len()
        invariant
            open < s.len(),
            s@[open as int] == '{',
            open <= i,
            content_start <= i,
            depth <= i,
            i <= s.len(),
            brace_scan(s@, open as int, 0, open as int) == brace_scan(s@, i as int, depth as nat, content_start as int),
        decreases s.len() - i,
    {
        let c = s[i];
        if c == '\'' || c == '"' {
            proof {
                lemma_string_at_advances(s@, i as int, c, false);
            }
            match string_at_exec(s, i, c, false) {
                None => return None,
                Some((e, _)) => {
                    i = e;
                },
            }
        } else if c == '#' {
            proof {
                lemma_line_comment_end(s@, i as int);
            }
            i = line_comment_end_exec(s, i);
        } else if c == '{' {
            if depth == 0 {
                content_start = i + 1;
            }
            depth = depth + 1;
            i = i + 1;
        } else if c == '}' {
            let d: usize = if depth > 0 { depth - 1 } else { 0 };
            if d == 0 {
                proof {
                    assert(brace_scan(s@, i as int, depth as nat, content_start as int) == Some((content_start as int, i as int)));
                    assert(brace_scan(s@, open as int, 0, open as int) == Some((content_start as int, i as int)));
                    assert(dict_body_at(s@, open as int) == Some(s@.subrange(content_start as int, i as int)));
                }
                return Some(slice_vec(s, content_start, i));
            }
            depth = d;
            i = i + 1;
        } else {
            i = i + 1;
        }
    }
    None
}

/// Where the value of `key` starts in a dictionary body.
pub fn value_start_for_key_exec(s: &[char], key: &[char], allow_triple: bool) -> (r: Option<usize>)
    ensures
        match r {
            Some(v) => value_start_for_key(s@, key@, allow_triple) == Some(v as int),
            None => value_start_for_key(s@, key@, allow_triple) is None,
        },
{
    let mut i: usize = 0;
    let mut depth: usize = 0;
    while i < s.len()
        invariant
            depth <= i,
            i <= s.len(),
            value_start_for_key(s@, key@, allow_triple) == key_scan(s@, key@, i as int, depth as nat, allow_triple),
        decreases s.len() - i,
    {
        let c = s[i];
        if c == '\'' || c == '"' {
            proof {
                lemma_string_at_advances(s@, i as int, c, allow_triple);
            }
            match string_at_exec(s, i, c, allow_triple) {
                None => return None,
                Some((e, text)) => {
                    let colon = skip_ws_exec(s, e);
                    if depth == 0 && seq_eq(&text, key) && colon < s.len() && s[colon] == ':' {
                        return Some(colon + 1);
                    }
                    i = e;
                },
            }
        } else if c == '#' {
            proof {
                lemma_line_comment_end(s@, i as int);
            }
            i = line_comment_end_exec(s, i);
        } else {
            depth = update_depth_exec(c, depth);
            i = i + 1;
        }
    }
    None
}

} // verus!
