//! Sorted lists of texts without duplicates, ordered as `String`s compare:
//! character by character, a proper prefix first.
use vstd::prelude::*;
use vstd::multiset::Multiset;
use crate::plan_package::string_views;
use crate::text::{chars_of, seq_eq, views};

verus! {

/// `a` comes strictly before `b`.
pub open spec fn text_lt(a: Seq<char>, b: Seq<char>) -> bool
    decreases a.len(),
{
    if a.len() == 0 {
        b.len() > 0
    } else if b.len() == 0 {
        false
    } else if a[0] < b[0] {
        true
    } else if a[0] == b[0] {
        text_lt(a.drop_first(), b.drop_first())
    } else {
        false
    }
}

/// Every text comes strictly before every later one.
pub open spec fn strictly_sorted(v: Seq<Seq<char>>) -> bool {
    forall|i: int, j: int| 0 <= i < j < v.len() ==> text_lt(#[trigger] v[i], #[trigger] v[j])
}

pub proof fn lemma_text_lt_irreflexive(a: Seq<char>)
    ensures
        !text_lt(a, a),
    decreases a.len(),
{
    if a.len() > 0 {
        lemma_text_lt_irreflexive(a.drop_first());
    }
}

pub proof fn lemma_text_lt_transitive(a: Seq<char>, b: Seq<char>, c: Seq<char>)
    requires
        text_lt(a, b),
        text_lt(b, c),
    ensures
        text_lt(a, c),
    decreases a.len(),
{
    if a.len() > 0 && b.len() > 0 && c.len() > 0 && a[0] == b[0] && b[0] == c[0] {
        lemma_text_lt_transitive(a.drop_first(), b.drop_first(), c.drop_first());
    }
}

pub proof fn lemma_text_lt_total(a: Seq<char>, b: Seq<char>)
    ensures
        a == b || text_lt(a, b) || text_lt(b, a),
    decreases a.len(),
{
    if a.len() > 0 && b.len() > 0 && a[0] == b[0] {
        lemma_text_lt_total(a.drop_first(), b.drop_first());
        if a.drop_first() == b.drop_first() {
            assert(a =~= seq![a[0]] + a.drop_first());
            assert(b =~= seq![b[0]] + b.drop_first());
        }
    } else if a.len() == 0 && b.len() == 0 {
        assert(a =~= b);
    }
}

/// Pushing an item adds it to the set of items.
pub proof fn lemma_push_to_set<A>(f: Seq<A>, x: A)
    ensures
        f.push(x).to_set() == f.to_set().insert(x),
{
    assert forall|y: A| f.push(x).to_set().contains(y) <==> f.to_set().insert(x).contains(y) by {
        if f.push(x).contains(y) {
            let k = choose|k: int| 0 <= k < f.len() + 1 && f.push(x)[k] == y;
            if k < f.len() {
                assert(f[k] == y);
            }
        }
        if f.contains(y) {
            let k = choose|k: int| 0 <= k < f.len() && f[k] == y;
            assert(f.push(x)[k] == y);
        }
        if y == x {
            assert(f.push(x)[f.len() as int] == x);
        }
    }
    assert(f.push(x).to_set() =~= f.to_set().insert(x));
}

/// Whether `a` comes strictly before `b`.
pub fn text_lt_exec(a: &[char], b: &[char]) -> (r: bool)
    ensures
        r == text_lt(a@, b@),
{
    let mut i: usize = 0;
    proof {
        assert(a@.subrange(0, a@.len() as int) =~= a@);
        assert(b@.subrange(0, b@.len() as int) =~= b@);
    }
    while i < a.len() && i < b.len() && a[i] == b[i]
        invariant
            i <= a.len(),
            i <= b.len(),
            text_lt(a@, b@) == text_lt(a@.subrange(i as int, a@.len() as int), b@.subrange(i as int, b@.len() as int)),
        decreases a.len() - i,
    {
        proof {
            let sa = a@.subrange(i as int, a@.len() as int);
            let sb = b@.subrange(i as int, b@.len() as int);
            assert(sa.drop_first() =~= a@.subrange(i + 1, a@.len() as int));
            assert(sb.drop_first() =~= b@.subrange(i + 1, b@.len() as int));
        }
        i = i + 1;
    }
    if i == a.len() {
        i < b.len()
    } else if i == b.len() {
        false
    } else {
        a[i] < b[i]
    }
}

fn lt_at(v: &Vec<String>, j: usize, x: &[char]) -> (r: bool)
    requires
        j < v.len(),
    ensures
        r == text_lt(string_views(v@)[j as int], x@),
{
    let vj = chars_of(v[j].as_str());
    text_lt_exec(&vj, x)
}

/// Adds a text to a strictly sorted list, where it belongs, unless it is
/// already there.
pub fn insert_sorted_unique(v: &mut Vec<String>, x: String)
    requires
        strictly_sorted(string_views(old(v)@)),
    ensures
        strictly_sorted(string_views(final(v)@)),
        string_views(final(v)@).to_set() == string_views(old(v)@).to_set().insert(x@),
{
    let ghost old_v = string_views(v@);
    let xc = chars_of(x.as_str());
    let mut j: usize = 0;
    while j < v.len() && lt_at(v, j, &xc)
        invariant
            j <= v.len(),
            xc@ == x@,
            old_v == string_views(v@),
            forall|k: int| 0 <= k < j ==> text_lt(#[trigger] old_v[k], x@),
        decreases v.len() - j,
    {
        j = j + 1;
    }
    if j < v.len() {
        let vj = chars_of(v[j].as_str());
        if crate::text::seq_eq(&vj, &xc) {
            proof {
                assert(old_v[j as int] == x@);
                assert(old_v.to_set().insert(x@) =~= old_v.to_set());
            }
            return;
        }
        proof {
            lemma_text_lt_total(old_v[j as int], x@);
            assert(text_lt(x@, old_v[j as int]));
        }
    }
    v.insert(j, x);
    proof {
        let nv = string_views(v@);
        assert(nv =~= old_v.insert(j as int, x@));
        assert forall|a: int, b: int| 0 <= a < b < nv.len() implies text_lt(#[trigger] nv[a], #[trigger] nv[b]) by {
            if b < j {
                assert(nv[a] == old_v[a]);
                assert(nv[b] == old_v[b]);
                assert(text_lt(old_v[a], old_v[b]));
            } else if a < j && b == j {
                assert(nv[a] == old_v[a]);
            } else if a < j && b > j {
                assert(nv[a] == old_v[a]);
                assert(nv[b] == old_v[b - 1]);
                assert(text_lt(old_v[a], old_v[b - 1]));
            } else if a == j {
                assert(nv[b] == old_v[b - 1]);
                if b - 1 > j {
                    lemma_text_lt_transitive(x@, old_v[j as int], old_v[b - 1]);
                }
            } else {
                assert(nv[a] == old_v[a - 1]);
                assert(nv[b] == old_v[b - 1]);
                assert(text_lt(old_v[a - 1], old_v[b - 1]));
            }
        }
        assert forall|y: Seq<char>| nv.to_set().contains(y) <==> old_v.to_set().insert(x@).contains(y) by {
            if nv.to_set().contains(y) {
                let k = choose|k: int| 0 <= k < nv.len() && nv[k] == y;
                if k < j {
                    assert(old_v[k] == y);
                } else if k > j {
                    assert(old_v[k - 1] == y);
                }
            }
            if old_v.to_set().contains(y) {
                let k = choose|k: int| 0 <= k < old_v.len() && old_v[k] == y;
                if k < j {
                    assert(nv[k] == y);
                } else {
                    assert(nv[k + 1] == y);
                }
            }
            if y == x@ {
                assert(nv[j as int] == y);
            }
        }
        assert(nv.to_set() =~= old_v.to_set().insert(x@));
    }
}

/// The position of the first text equal to `x`.
fn position_of(v: &Vec<Vec<char>>, x: &[char]) -> (r: Option<usize>)
    ensures
        match r {
            Some(j) => j < v.len() && views(v@)[j as int] == x@,
            None => !views(v@).contains(x@),
        },
{
    let mut j: usize = 0;
    while j < v.len()
        invariant
            j <= v.len(),
            forall|k: int| 0 <= k < j ==> views(v@)[k] != x@,
        decreases v.len() - j,
    {
        if seq_eq(&v[j], x) {
            return Some(j);
        }
        j = j + 1;
    }
    None
}

/// Whether two lists hold the same texts the same number of times, that is,
/// whether they are equal once sorted.
pub fn same_items(a: &Vec<String>, b: &Vec<String>) -> (r: bool)
    ensures
        r == (string_views(a@).to_multiset() == string_views(b@).to_multiset()),
{
    broadcast use vstd::seq_lib::group_to_multiset_ensures, vstd::multiset::group_multiset_axioms, vstd::multiset::group_multiset_properties;

    let ghost sa = string_views(a@);
    let ghost sb = string_views(b@);
    if a.len() != b.len() {
        proof {
            assert(sa.len() == sa.to_multiset().len());
            assert(sb.len() == sb.to_multiset().len());
        }
        return false;
    }
    let mut rest: Vec<Vec<char>> = Vec::new();
    let mut k: usize = 0;
    while k < b.len()
        invariant
            k <= b.len(),
            sb == string_views(b@),
            views(rest@) == sb.take(k as int),
        decreases b.len() - k,
    {
        let ghost before = views(rest@);
        rest.push(chars_of(b[k].as_str()));
        proof {
            assert(views(rest@) =~= before.push(sb[k as int]));
            assert(sb.take(k + 1) =~= sb.take(k as int).push(sb[k as int]));
        }
        k = k + 1;
    }
    proof {
        assert(sb.take(b.len() as int) =~= sb);
        assert(sa.take(0) =~= Seq::<Seq<char>>::empty());
        assert(sa.take(0).to_multiset() =~= Multiset::<Seq<char>>::empty());
        assert(sa.take(0).to_multiset().add(views(rest@).to_multiset()) =~= sb.to_multiset());
    }
    let mut i: usize = 0;
    while i < a.len()
        invariant
            i <= a.len(),
            a.len() == b.len(),
            sa == string_views(a@),
            sb == string_views(b@),
            rest.len() + i == a.len(),
            sa.take(i as int).to_multiset().add(views(rest@).to_multiset()) == sb.to_multiset(),
        decreases a.len() - i,
    {
        let x = chars_of(a[i].as_str());
        proof {
            assert(sa.take(i + 1) =~= sa.take(i as int).push(x@));
        }
        match position_of(&rest, &x) {
            None => {
                proof {
                    let pre = sa.take(i as int);
                    let rv = views(rest@);
                    rv.to_multiset_ensures();
                    assert(rv.to_multiset().count(x@) == 0);
                    sa.take(i as int).to_multiset_ensures();
                    assert(sa.take(i + 1).to_multiset() == pre.to_multiset().insert(x@));
                    assert(sb.to_multiset().count(x@) == pre.to_multiset().count(x@));
                    assert(sa.take(i + 1).to_multiset().count(x@) == pre.to_multiset().count(x@) + 1);
                    assert(sa =~= sa.take(i + 1) + sa.skip(i + 1));
                    vstd::seq_lib::lemma_multiset_commutative(sa.take(i + 1), sa.skip(i + 1));
                    assert(sa.to_multiset().count(x@) >= sa.take(i + 1).to_multiset().count(x@));
                    assert(sa.to_multiset().count(x@) != sb.to_multiset().count(x@));
                }
                return false;
            },
            Some(j) => {
                let ghost rv = views(rest@);
                rest.remove(j);
                proof {
                    assert(views(rest@) =~= rv.remove(j as int));
                    rv.to_multiset_ensures();
                    sa.take(i as int).to_multiset_ensures();
                    assert(rv.remove(j as int).to_multiset() == rv.to_multiset().remove(rv[j as int]));
                    assert(sa.take(i + 1).to_multiset() == sa.take(i as int).to_multiset().insert(x@));
                    assert(rv.to_multiset().count(x@) > 0);
                    assert(sa.take(i + 1).to_multiset().add(views(rest@).to_multiset()) =~= sb.to_multiset());
                }
            },
        }
        i = i + 1;
    }
    proof {
        assert(sa.take(a.len() as int) =~= sa);
        assert(views(rest@).len() == 0);
        assert(views(rest@).to_multiset() =~= Multiset::<Seq<char>>::empty());
        assert(sa.to_multiset().add(Multiset::<Seq<char>>::empty()) =~= sa.to_multiset());
    }
    true
}

} // verus!
