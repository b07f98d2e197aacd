//! Web search results and the text rules around fetching: cutting a
//! response to a byte budget on a character boundary, and recognizing HTML.
use vstd::prelude::*;
use vstd::utf8::{encode_utf8, encode_scalar, char_is_scalar, is_scalar};
use crate::json_args::{FieldView, JsonField, field_view, fields_view, json_at_pointers, pointers_view, read_pointers, copy_text_of};
use crate::llm_config::WebSearchResultMap;
use crate::text::{
    chars_of, contains, contains_lit, lower_exec, lower_seq, slice_vec, split, split_exec, string_of, surround, views,
};

verus! {

/// A failed search or fetch.
#[derive(Debug, Clone, PartialEq, Eq)]
pub struct WebSearchError {
    pub message: String,
}

/// One search hit.
#[derive(Debug, Clone, PartialEq, Eq)]
pub struct WebSearchResult {
    pub title: String,
    pub url: String,
    pub snippet: String,
    pub date: Option<String>,
    pub source: Option<String>,
}

/// The UTF-8 length of a text.
pub open spec fn byte_len(s: Seq<char>) -> nat {
    encode_utf8(s).len()
}

/// `k` characters are the longest prefix of `text` within `limit` bytes.
pub open spec fn longest_prefix_within(text: Seq<char>, limit: nat, k: int) -> bool {
    &&& 0 <= k <= text.len()
    &&& byte_len(text.take(k)) <= limit
    &&& k < text.len() ==> byte_len(text.take(k + 1)) > limit
}

pub proof fn lemma_encode_concat(a: Seq<char>, b: Seq<char>)
    ensures
        encode_utf8(a + b) == encode_utf8(a) + encode_utf8(b),
    decreases a.len(),
{
    if a.len() == 0 {
        assert(a + b =~= b);
        assert(encode_utf8(a) =~= Seq::<u8>::empty());
        assert(Seq::<u8>::empty() + encode_utf8(b) =~= encode_utf8(b));
    } else {
        assert((a + b).drop_first() =~= a.drop_first() + b);
        assert((a + b)[0] == a[0]);
        lemma_encode_concat(a.drop_first(), b);
        assert(encode_utf8(a + b) =~= encode_scalar(a[0] as u32) + (encode_utf8(a.drop_first()) + encode_utf8(b)));
    }
}

/// The number of UTF-8 bytes of a character.
pub open spec fn char_width(c: char) -> nat {
    let n = c as u32;
    if n <= 0x7F {
        1
    } else if n <= 0x7FF {
        2
    } else if n <= 0xFFFF {
        3
    } else {
        4
    }
}

pub proof fn lemma_char_width(c: char)
    ensures
        encode_utf8(seq![c]).len() == char_width(c),
{
    char_is_scalar(c);
    assert(seq![c].drop_first() =~= Seq::<char>::empty());
    assert(encode_utf8(seq![c]) =~= encode_scalar(c as u32) + encode_utf8(Seq::<char>::empty()));
}

pub proof fn lemma_byte_len_step(s: Seq<char>, k: int)
    requires
        0 <= k < s.len(),
    ensures
        byte_len(s.take(k + 1)) == byte_len(s.take(k)) + char_width(s[k]),
{
    assert(s.take(k + 1) =~= s.take(k) + seq![s[k]]);
    lemma_encode_concat(s.take(k), seq![s[k]]);
    lemma_char_width(s[k]);
}

pub fn char_width_exec(c: char) -> (r: usize)
    ensures
        r == char_width(c),
{
    let n = c as u32;
    if n <= 0x7F {
        1
    } else if n <= 0x7FF {
        2
    } else if n <= 0xFFFF {
        3
    } else {
        4
    }
}

/// A response cut to at most `max_bytes` UTF-8 bytes, on a character
/// boundary; the whole text when there is no limit or it fits.
pub fn truncate_response(text: &str, max_bytes: Option<usize>) -> (r: String)
    ensures
        match max_bytes {
            Some(limit) => if byte_len(text@) > limit {
                exists|k: int| longest_prefix_within(text@, limit as nat, k) && r@ == text@.take(k)
            } else {
                r@ == text@
            },
            None => r@ == text@,
        },
{
    let limit = match max_bytes {
        None => return text.to_owned(),
        Some(l) => l,
    };
    if text.as_bytes().len() <= limit {
        return text.to_owned();
    }
    let c = chars_of(text);
    let mut k: usize = 0;
    let mut used: usize = 0;
    proof {
        assert(c@.take(0) =~= Seq::<char>::empty());
        assert(encode_utf8(Seq::<char>::empty()) =~= Seq::<u8>::empty());
    }
    while k < c.len()
        invariant
            k <= c.len(),
            c@ == text@,
            used == byte_len(c@.take(k as int)),
            used <= limit,
            max_bytes == Some(limit),
            byte_len(text@) > limit,
        decreases c.len() - k,
    {
        let w = char_width_exec(c[k]);
        proof {
            lemma_byte_len_step(c@, k as int);
        }
        if w > limit - used {
            let out = slice_vec(&c, 0, k);
            proof {
                assert(longest_prefix_within(text@, limit as nat, k as int));
                assert(out@ =~= text@.take(k as int));
            }
            return string_of(&out);
        }
        used = used + w;
        k = k + 1;
    }
    proof {
        assert(c@.take(c@.len() as int) =~= c@);
    }
    string_of(&c)
}

/// A content type of HTML or XHTML, ignoring ASCII case.
pub open spec fn is_html_content(content_type: Seq<char>) -> bool {
    let lower = lower_seq(content_type);
    contains(lower, "text/html"@) || contains(lower, "application/xhtml"@)
}

pub fn is_html_content_type(content_type: &str) -> (r: bool)
    ensures
        r == is_html_content(content_type@),
{
    let lower = lower_exec(&chars_of(content_type));
    contains_lit(&lower, "text/html") || contains_lit(&lower, "application/xhtml")
}

// ---------------------------------------------------------------------------
// Search results

/// A JSON pointer token: `~` written `~0` and `/` written `~1`.
pub open spec fn escape_token(s: Seq<char>) -> Seq<char>
    decreases s.len(),
{
    if s.len() == 0 {
        Seq::empty()
    } else {
        escape_token(s.drop_last()) + if s.last() == '~' {
            seq!['~', '0']
        } else if s.last() == '/' {
            seq!['~', '1']
        } else {
            seq![s.last()]
        }
    }
}

/// The JSON pointer that follows the keys one by one.
pub open spec fn pointer_of(keys: Seq<Seq<char>>) -> Seq<char>
    decreases keys.len(),
{
    if keys.len() == 0 {
        Seq::empty()
    } else {
        pointer_of(keys.drop_last()) + seq!['/'] + escape_token(keys.last())
    }
}

/// The pointers of the path's prefixes, from the whole value to the path.
pub open spec fn prefix_pointers(keys: Seq<Seq<char>>) -> Seq<Seq<char>> {
    Seq::new(keys.len() + 1, |k: int| pointer_of(keys.take(k)))
}

/// The pointers read of one item: the item, then each key in it.
pub open spec fn item_pointers(base: Seq<char>, i: nat, keys: Seq<Seq<char>>) -> Seq<Seq<char>> {
    let item = base + seq!['/'] + crate::preview::decimal(i);
    seq![item].add(Seq::new(keys.len(), |j: int| item + seq!['/'] + escape_token(keys[j])))
}

/// The pointers read of the first `m` items.
pub open spec fn items_pointers(base: Seq<char>, m: nat, keys: Seq<Seq<char>>) -> Seq<Seq<char>>
    decreases m,
{
    if m == 0 {
        Seq::empty()
    } else {
        items_pointers(base, (m - 1) as nat, keys) + item_pointers(base, (m - 1) as nat, keys)
    }
}

/// Following the path key by key reaches a value: every value on the way
/// is an object and the last key is there.
pub open spec fn path_reached(f: Seq<FieldView>, n: int) -> bool {
    &&& forall|k: int| 0 <= k < n ==> (#[trigger] f[k]).5
    &&& f[n].0
}

/// The fields of item `i` read from the item reads: a key's string counts
/// only where the item is an object.
pub open spec fn item_fields(g: Seq<FieldView>, i: int) -> Seq<Option<Seq<char>>> {
    Seq::new(5, |j: int| if g[6 * i].5 {
        g[6 * i + 1 + j].1
    } else {
        None
    })
}

/// What extracting search results from a response gives: the results path
/// is split at dots and followed key by key, it must lead to an array, and
/// each item with a title and url string gives a hit; the messages of the
/// failures.
pub open spec fn search_results_of(text: Seq<char>, map: WebSearchResultMap) -> Result<Seq<ResultView>, Seq<char>> {
    let keys = split(map.results_path@, '.');
    let n = keys.len() as int;
    match json_at_pointers(text, prefix_pointers(keys)) {
        Err(e) => Err("search response is not valid JSON: "@ + e),
        Ok(f) => if !path_reached(f, n) || f[n].2 is None {
            Err("result_map.results path `"@ + map.results_path@ + "` did not resolve to an array"@)
        } else {
            let m = f[n].2->0.len();
            match json_at_pointers(text, items_pointers(pointer_of(keys), m, result_keys(map))) {
                Err(e) => Err("search response is not valid JSON: "@ + e),
                Ok(g) => Ok(
                    results_of(
                        Seq::new(m, |i: int| item_fields(g, i)),
                        map.date is Some,
                        map.source is Some,
                    ),
                ),
            }
        },
    }
}

fn parse_failure(e: &String) -> (r: WebSearchError)
    ensures
        r.message@ == "search response is not valid JSON: "@ + e@,
{
    let m = surround("search response is not valid JSON: ", &chars_of(e.as_str()), "");
    proof {
        reveal_strlit("");
        assert(m@ =~= "search response is not valid JSON: "@ + e@);
    }
    WebSearchError { message: string_of(&m) }
}

fn escape_token_exec(s: &[char]) -> (r: Vec<char>)
    ensures
        r@ == escape_token(s@),
{
    let mut r: Vec<char> = Vec::new();
    let mut i: usize = 0;
    while i < s.len()
        invariant
            i <= s.len(),
            r@ == escape_token(s@.take(i as int)),
        decreases s.len() - i,
    {
        proof {
            assert(s@.take(i + 1).drop_last() =~= s@.take(i as int));
            assert(s@.take(i + 1).last() == s@[i as int]);
        }
        let c = s[i];
        if c == '~' {
            r.push('~');
            r.push('0');
        } else if c == '/' {
            r.push('~');
            r.push('1');
        } else {
            r.push(c);
        }
        proof {
            assert(r@ =~= escape_token(s@.take(i + 1)));
        }
        i = i + 1;
    }
    proof {
        assert(s@.take(s@.len() as int) =~= s@);
    }
    r
}

fn append_token(p: &mut Vec<char>, key: &[char])
    ensures
        final(p)@ == old(p)@ + seq!['/'] + escape_token(key@),
{
    p.push('/');
    let e = escape_token_exec(key);
    crate::text::append_chars(p, &e);
}

/// A search hit by its views: title, url, snippet, date, source.
pub type ResultView = (Seq<char>, Seq<char>, Seq<char>, Option<Seq<char>>, Option<Seq<char>>);

pub open spec fn result_view(r: WebSearchResult) -> ResultView {
    (
        r.title@,
        r.url@,
        r.snippet@,
        match r.date {
            Some(d) => Some(d@),
            None => None,
        },
        match r.source {
            Some(s) => Some(s@),
            None => None,
        },
    )
}

pub open spec fn results_view(v: Seq<WebSearchResult>) -> Seq<ResultView> {
    v.map_values(|r: WebSearchResult| result_view(r))
}

/// The keys a result map reads of each item: title, url, snippet, then the
/// date and source keys (empty where the map has none; their fields are
/// not used then).
pub open spec fn result_keys(map: WebSearchResultMap) -> Seq<Seq<char>> {
    seq![
        map.title@,
        map.url@,
        map.snippet@,
        match map.date {
            Some(d) => d@,
            None => Seq::empty(),
        },
        match map.source {
            Some(s) => s@,
            None => Seq::empty(),
        },
    ]
}

/// The hit of an item: none without a title or url string; the snippet is
/// empty where missing; date and source only where the map names them.
pub open spec fn result_of_item(f: Seq<Option<Seq<char>>>, has_date: bool, has_source: bool) -> Option<ResultView> {
    match (f[0], f[1]) {
        (Some(t), Some(u)) => Some(
            (
                t,
                u,
                match f[2] {
                    Some(sn) => sn,
                    None => Seq::empty(),
                },
                if has_date {
                    f[3]
                } else {
                    None
                },
                if has_source {
                    f[4]
                } else {
                    None
                },
            ),
        ),
        _ => None,
    }
}

/// The hits of the items, in order.
pub open spec fn results_of(items: Seq<Seq<Option<Seq<char>>>>, has_date: bool, has_source: bool) -> Seq<ResultView>
    decreases items.len(),
{
    if items.len() == 0 {
        Seq::empty()
    } else {
        let prev = results_of(items.drop_last(), has_date, has_source);
        match result_of_item(items.last(), has_date, has_source) {
            Some(r) => prev.push(r),
            None => prev,
        }
    }
}

/// The hits of a search response under a result map: the response text is
/// read as JSON, the dot-separated results path leads to the array of
/// items, and each item with a title and url string gives a hit.
pub fn extract_results(response_text: &str, map: &WebSearchResultMap) -> (r: Result<Vec<WebSearchResult>, WebSearchError>)
    ensures
        match (r, search_results_of(response_text@, *map)) {
            (Ok(v), Ok(w)) => results_view(v@) == w,
            (Err(x), Err(m)) => x.message@ == m,
            _ => false,
        },
{
    let keys = split_exec(&chars_of(map.results_path.as_str()), '.');
    let ghost kv = views(keys@);
    let n = keys.len();
    proof {
        crate::text::lemma_split_nonempty(map.results_path@, '.');
    }
    // The pointers of the path's prefixes.
    let mut prefixes: Vec<String> = Vec::new();
    let mut current: Vec<char> = Vec::new();
    let mut k: usize = 0;
    proof {
        assert(kv.take(0) =~= Seq::<Seq<char>>::empty());
    }
    while k < n
        invariant
            k <= n,
            n == keys.len(),
            kv == views(keys@),
            current@ == pointer_of(kv.take(k as int)),
            pointers_view(prefixes@) == prefix_pointers(kv).take(k as int),
        decreases n - k,
    {
        let ghost before = pointers_view(prefixes@);
        let ghost cur = current@;
        prefixes.push(string_of(&current));
        append_token(&mut current, &keys[k]);
        proof {
            assert(kv.len() == n);
            assert(kv.take(k + 1).drop_last() =~= kv.take(k as int));
            assert(kv.take(k + 1).last() == keys@[k as int]@);
            assert(pointers_view(prefixes@) =~= before.push(cur));
            assert(prefix_pointers(kv)[k as int] == pointer_of(kv.take(k as int)));
            assert(prefix_pointers(kv).take(k + 1) =~= prefix_pointers(kv).take(k as int).push(cur));
        }
        k = k + 1;
    }
    let path_pointer = string_of(&current);
    let ghost before_last = pointers_view(prefixes@);
    prefixes.push(string_of(&current));
    proof {
        assert(kv.len() == n);
        assert(kv.take(n as int) =~= kv);
        assert(pointers_view(prefixes@) =~= before_last.push(pointer_of(kv)));
        assert(prefix_pointers(kv)[n as int] == pointer_of(kv.take(n as int)));
        assert(prefix_pointers(kv) =~= prefix_pointers(kv).take(n as int).push(pointer_of(kv)));
    }
    let f = match read_pointers(response_text, &prefixes) {
        Err(e) => return Err(parse_failure(&e)),
        Ok(f) => f,
    };
    let ghost fv = fields_view(f@);
    let mut reached = true;
    let mut j: usize = 0;
    while j < n
        invariant
            j <= n,
            n + 1 == f@.len(),
            fv == fields_view(f@),
            reached == forall|q: int| 0 <= q < j ==> (#[trigger] fv[q]).5,
        decreases n - j,
    {
        let is_object = match &f[j] {
            JsonField::Object => true,
            _ => false,
        };
        proof {
            assert(fv[j as int] == field_view(f@[j as int]));
        }
        reached = reached && is_object;
        j = j + 1;
    }
    let present = match &f[n] {
        JsonField::Absent => false,
        _ => true,
    };
    let m = match &f[n] {
        JsonField::Items(v) => v.len(),
        _ => 0,
    };
    let is_array = match &f[n] {
        JsonField::Items(_) => true,
        _ => false,
    };
    proof {
        assert(fv[n as int] == field_view(f@[n as int]));
    }
    if !reached || !present || !is_array {
        let msg = surround("result_map.results path `", &chars_of(map.results_path.as_str()), "` did not resolve to an array");
        return Err(WebSearchError { message: string_of(&msg) });
    }
    proof {
        assert(path_reached(fv, n as int));
    }
    // The pointers of the items and their keys.
    let mut names: Vec<Vec<char>> = Vec::new();
    names.push(chars_of(map.title.as_str()));
    names.push(chars_of(map.url.as_str()));
    names.push(chars_of(map.snippet.as_str()));
    names.push(match &map.date {
        Some(d) => chars_of(d.as_str()),
        None => Vec::new(),
    });
    names.push(match &map.source {
        Some(s) => chars_of(s.as_str()),
        None => Vec::new(),
    });
    let ghost rk = result_keys(*map);
    proof {
        assert(views(names@) =~= rk);
    }
    let base = chars_of(path_pointer.as_str());
    let mut item_ptrs: Vec<String> = Vec::new();
    let mut i: usize = 0;
    while i < m
        invariant
            i <= m,
            base@ == pointer_of(kv),
            path_pointer@ == base@,
            views(names@) == rk,
            names@.len() == 5,
            pointers_view(item_ptrs@) == items_pointers(base@, i as nat, rk),
        decreases m - i,
    {
        let mut item = chars_of(path_pointer.as_str());
        item.push('/');
        crate::text::append_chars(&mut item, &crate::preview::decimal_usize(i));
        assert(item@ =~= base@ + seq!['/'] + crate::preview::decimal(i as nat));
        let ghost before = pointers_view(item_ptrs@);
        item_ptrs.push(string_of(&item));
        proof {
            assert(pointers_view(item_ptrs@) =~= before.push(item@));
            assert(item_pointers(base@, i as nat, rk).take(1) =~= seq![item@]);
            assert(before.push(item@) =~= before + seq![item@]);
        }
        let mut q: usize = 0;
        while q < 5
            invariant
                q <= 5,
                names@.len() == 5,
                views(names@) == rk,
                item@ == base@ + seq!['/'] + crate::preview::decimal(i as nat),
                pointers_view(item_ptrs@) == before + item_pointers(base@, i as nat, rk).take(q + 1),
            decreases 5 - q,
        {
            let mut p = chars_of(string_of(&item).as_str());
            append_token(&mut p, &names[q]);
            let ghost mid = pointers_view(item_ptrs@);
            item_ptrs.push(string_of(&p));
            proof {
                assert(views(names@)[q as int] == names@[q as int]@);
                assert(pointers_view(item_ptrs@) =~= mid.push(p@));
                assert(item_pointers(base@, i as nat, rk).take(q + 2) =~= item_pointers(base@, i as nat, rk).take(q + 1).push(p@));
            }
            q = q + 1;
        }
        proof {
            assert(item_pointers(base@, i as nat, rk).take(6) =~= item_pointers(base@, i as nat, rk));
        }
        i = i + 1;
    }
    let g = match read_pointers(response_text, &item_ptrs) {
        Err(e) => return Err(parse_failure(&e)),
        Ok(g) => g,
    };
    proof {
        lemma_items_pointers_len(base@, m as nat, rk);
    }
    Ok(collect_results(&g, m, map.date.is_some(), map.source.is_some()))
}

/// The hits of the item reads, in order.
fn collect_results(g: &Vec<JsonField>, m: usize, has_date: bool, has_source: bool) -> (r: Vec<WebSearchResult>)
    requires
        g@.len() == 6 * m,
    ensures
        results_view(r@) == results_of(
            Seq::new(m as nat, |x: int| item_fields(fields_view(g@), x)),
            has_date,
            has_source,
        ),
{
    let ghost gv = fields_view(g@);
    let ghost items = Seq::new(m as nat, |x: int| item_fields(gv, x));
    let mut out: Vec<WebSearchResult> = Vec::new();
    let mut t: usize = 0;
    let mut at: usize = 0;
    let total = g.len();
    proof {
        assert(items.take(0) =~= Seq::<Seq<Option<Seq<char>>>>::empty());
        assert(results_view(out@) =~= Seq::<ResultView>::empty());
    }
    while t < m
        invariant
            t <= m,
            at == 6 * t,
            g@.len() == 6 * m,
            total == g@.len(),
            gv == fields_view(g@),
            items == Seq::new(m as nat, |x: int| item_fields(gv, x)),
            results_view(out@) == results_of(items.take(t as int), has_date, has_source),
        decreases m - t,
    {
        proof {
            assert(items.take(t + 1).drop_last() =~= items.take(t as int));
            assert(items.take(t + 1).last() == item_fields(gv, t as int));
            assert forall|q: int| 0 <= q < 6 implies #[trigger] gv[6 * t + q] == field_view(g@[6 * t + q]) by {}
        }
        assert(at + 6 <= total);
        let is_object = match &g[at] {
            JsonField::Object => true,
            _ => false,
        };
        if is_object {
            let title = copy_text_of(&g[at + 1]);
            let url = copy_text_of(&g[at + 2]);
            match (title, url) {
                (Some(title), Some(url)) => {
                    let snippet = match copy_text_of(&g[at + 3]) {
                        Some(sn) => sn,
                        None => String::new(),
                    };
                    let date = if has_date {
                        copy_text_of(&g[at + 4])
                    } else {
                        None
                    };
                    let source = if has_source {
                        copy_text_of(&g[at + 5])
                    } else {
                        None
                    };
                    let ghost before = results_view(out@);
                    out.push(WebSearchResult { title, url, snippet, date, source });
                    proof {
                        assert(results_view(out@) =~= before.push(result_of_item(item_fields(gv, t as int), has_date, has_source)->0));
                    }
                },
                _ => {},
            }
        }
        t = t + 1;
        at = at + 6;
    }
    proof {
        assert(items.take(m as int) =~= items);
    }
    out
}

proof fn lemma_items_pointers_len(base: Seq<char>, m: nat, keys: Seq<Seq<char>>)
    requires
        keys.len() == 5,
    ensures
        items_pointers(base, m, keys).len() == 6 * m,
    decreases m,
{
    if m > 0 {
        lemma_items_pointers_len(base, (m - 1) as nat, keys);
    }
}

} // verus!
