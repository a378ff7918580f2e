//! The order of strings (by character code, which is the order of `String`)
//! and sorted lists of distinct strings.
use vstd::prelude::*;
use crate::text::{string_views, chars_of};

verus! {

/// `a` comes strictly before `b` in the order of character codes.
pub open spec fn lex_lt(a: Seq<char>, b: Seq<char>) -> bool
    decreases a.len(),
{
    if a.len() == 0 {
        b.len() > 0
    } else if b.len() == 0 {
        false
    } else if a[0] < b[0] {
        true
    } else if a[0] == b[0] {
        lex_lt(a.skip(1), b.skip(1))
    } else {
        false
    }
}

/// Strictly increasing: sorted, and nothing occurs twice.
pub open spec fn strictly_sorted(s: Seq<Seq<char>>) -> bool {
    forall|i: int, j: int| 0 <= i < j < s.len() ==> lex_lt(#[trigger] s[i], #[trigger] s[j])
}

/// The values of `v`, sorted and each kept once.
pub open spec fn is_sorted_dedup_of(r: Seq<Seq<char>>, v: Seq<Seq<char>>) -> bool {
    strictly_sorted(r) && r.to_set() == v.to_set()
}

pub proof fn lemma_lex_irreflexive(a: Seq<char>)
    ensures
        !lex_lt(a, a),
    decreases a.len(),
{
    if a.len() > 0 {
        lemma_lex_irreflexive(a.skip(1));
    }
}

pub proof fn lemma_lex_asymmetric(a: Seq<char>, b: Seq<char>)
    requires
        lex_lt(a, b),
    ensures
        !lex_lt(b, a),
    decreases a.len(),
{
    if a.len() > 0 && b.len() > 0 && a[0] == b[0] {
        lemma_lex_asymmetric(a.skip(1), b.skip(1));
    }
}

pub proof fn lemma_lex_transitive(a: Seq<char>, b: Seq<char>, c: Seq<char>)
    requires
        lex_lt(a, b),
        lex_lt(b, c),
    ensures
        lex_lt(a, c),
    decreases a.len(),
{
    if a.len() > 0 && b.len() > 0 && c.len() > 0 && a[0] == b[0] && b[0] == c[0] {
        lemma_lex_transitive(a.skip(1), b.skip(1), c.skip(1));
    }
}

pub proof fn lemma_lex_total(a: Seq<char>, b: Seq<char>)
    ensures
        lex_lt(a, b) || lex_lt(b, a) || a == b,
    decreases a.len(),
{
    if a.len() > 0 && b.len() > 0 && a[0] == b[0] {
        lemma_lex_total(a.skip(1), b.skip(1));
        if a.skip(1) == b.skip(1) {
            assert(a =~= seq![a[0]] + a.skip(1));
            assert(b =~= seq![b[0]] + b.skip(1));
        }
    } else if a.len() == 0 && b.len() == 0 {
        assert(a =~= b);
    }
}

/// A sorted list of distinct strings is determined by the set it holds:
/// the sorted, deduplicated form of a list is unique.
pub proof fn law_sorted_dedup_unique(a: Seq<Seq<char>>, b: Seq<Seq<char>>, v: Seq<Seq<char>>)
    requires
        is_sorted_dedup_of(a, v),
        is_sorted_dedup_of(b, v),
    ensures
        a == b,
{
    lemma_sorted_same_set(a, b);
}

proof fn lemma_sorted_same_set(a: Seq<Seq<char>>, b: Seq<Seq<char>>)
    requires
        strictly_sorted(a),
        strictly_sorted(b),
        a.to_set() == b.to_set(),
    ensures
        a == b,
    decreases a.len(),
{
    if a.len() == 0 {
        if b.len() > 0 {
            assert(b.to_set().contains(b[0]));
            assert(!a.to_set().contains(b[0]));
        }
        assert(a =~= b);
    } else {
        assert(a.to_set().contains(a[0]));
        assert(b.to_set().contains(a[0]));
        assert(b.len() > 0);
        assert(b.to_set().contains(b[0]));
        assert(a.to_set().contains(b[0]));
        let k = choose|k: int| 0 <= k < b.len() && b[k] == a[0];
        let m = choose|m: int| 0 <= m < a.len() && a[m] == b[0];
        if k > 0 {
            assert(lex_lt(b[0], b[k]));
            if m > 0 {
                assert(lex_lt(a[0], a[m]));
                lemma_lex_asymmetric(b[0], a[0]);
            } else {
                lemma_lex_irreflexive(a[0]);
            }
        }
        assert(a[0] == b[0]);
        let ra = a.drop_first();
        let rb = b.drop_first();
        assert forall|x: Seq<char>| ra.to_set().contains(x) <==> rb.to_set().contains(x) by {
            if ra.to_set().contains(x) {
                let i = choose|i: int| 0 <= i < ra.len() && ra[i] == x;
                assert(a[i + 1] == x);
                assert(lex_lt(a[0], a[i + 1]));
                assert(a.to_set().contains(x));
                assert(b.to_set().contains(x));
                let j = choose|j: int| 0 <= j < b.len() && b[j] == x;
                if j == 0 {
                    lemma_lex_irreflexive(a[0]);
                }
                assert(rb[j - 1] == x);
            }
            if rb.to_set().contains(x) {
                let i = choose|i: int| 0 <= i < rb.len() && rb[i] == x;
                assert(b[i + 1] == x);
                assert(lex_lt(b[0], b[i + 1]));
                assert(b.to_set().contains(x));
                assert(a.to_set().contains(x));
                let j = choose|j: int| 0 <= j < a.len() && a[j] == x;
                if j == 0 {
                    lemma_lex_irreflexive(b[0]);
                }
                assert(ra[j - 1] == x);
            }
        }
        assert(ra.to_set() =~= rb.to_set());
        assert forall|i: int, j: int| 0 <= i < j < ra.len() implies lex_lt(#[trigger] ra[i], #[trigger] ra[j]) by {
            assert(ra[i] == a[i + 1]);
            assert(ra[j] == a[j + 1]);
        }
        assert forall|i: int, j: int| 0 <= i < j < rb.len() implies lex_lt(#[trigger] rb[i], #[trigger] rb[j]) by {
            assert(rb[i] == b[i + 1]);
            assert(rb[j] == b[j + 1]);
        }
        lemma_sorted_same_set(ra, rb);
        assert(a =~= seq![a[0]] + ra);
        assert(b =~= seq![b[0]] + rb);
    }
}

/// Whether `a` comes strictly before `b`.
pub fn chars_less(a: &Vec<char>, b: &Vec<char>) -> (r: bool)
    ensures
        r == lex_lt(a@, b@),
{
    let mut i: usize = 0;
    assert(a@.skip(0) =~= a@);
    assert(b@.skip(0) =~= b@);
    while i < a.len() && i < b.len() && a[i] == b[i]
        invariant
            i <= a.len(),
            i <= b.len(),
            lex_lt(a@, b@) == lex_lt(a@.skip(i as int), b@.skip(i as int)),
        decreases a.len() - i,
    {
        assert(a@.skip(i as int).skip(1) =~= a@.skip(i + 1));
        assert(b@.skip(i as int).skip(1) =~= b@.skip(i + 1));
        i += 1;
    }
    if i == a.len() {
        i < b.len()
    } else if i == b.len() {
        false
    } else {
        a[i] < b[i]
    }
}

/// Whether string `a` comes strictly before string `b`.
pub fn string_less(a: &String, b: &String) -> (r: bool)
    ensures
        r == lex_lt(a@, b@),
{
    chars_less(&chars_of(a.as_str()), &chars_of(b.as_str()))
}

proof fn lemma_sorted_insert(s: Seq<Seq<char>>, k: int, x: Seq<char>)
    requires
        strictly_sorted(s),
        0 <= k <= s.len(),
        forall|j: int| 0 <= j < k ==> lex_lt(s[j], x),
        k < s.len() ==> lex_lt(x, s[k]),
    ensures
        strictly_sorted(s.insert(k, x)),
{
    let t = s.insert(k, x);
    assert forall|i: int, j: int| 0 <= i < j < t.len() implies lex_lt(#[trigger] t[i], #[trigger] t[j]) by {
        if j < k {
            assert(t[i] == s[i] && t[j] == s[j]);
        } else if j == k {
            assert(t[i] == s[i]);
        } else if i < k {
            assert(t[i] == s[i] && t[j] == s[j - 1]);
            lemma_lex_transitive(s[i], x, s[k]);
            if j - 1 > k {
                lemma_lex_transitive(s[i], s[k], s[j - 1]);
            }
        } else if i == k {
            assert(t[j] == s[j - 1]);
            if j - 1 > k {
                lemma_lex_transitive(x, s[k], s[j - 1]);
            }
        } else {
            assert(t[i] == s[i - 1] && t[j] == s[j - 1]);
        }
    }
}

/// Sorts `values` and keeps each value once (`sort` then `dedup`).
pub fn dedup(values: &mut Vec<String>)
    ensures
        is_sorted_dedup_of(string_views(final(values)@), string_views(old(values)@)),
{
    let input = values.clone();
    let mut r: Vec<String> = Vec::new();
    let mut i: usize = 0;
    let ghost src = string_views(input@);
    assert(src == string_views(old(values)@)) by {
        assert(string_views(input@) =~= string_views(old(values)@)) by {
            assert forall|k: int| 0 <= k < input@.len() implies input@[k]@ == old(values)@[k]@ by {
                assert(vstd::pervasive::cloned::<String>(old(values)@[k], input@[k]));
            }
        }
    }
    while i < input.len()
        invariant
            i <= input.len(),
            src == string_views(input@),
            strictly_sorted(string_views(r@)),
            string_views(r@).to_set() == src.take(i as int).to_set(),
        decreases input.len() - i,
    {
        let x = &input[i];
        let ghost xs = x@;
        let ghost rv = string_views(r@);
        let mut k: usize = 0;
        while k < r.len()
            invariant
                k <= r.len(),
                rv == string_views(r@),
                xs == x@,
                forall|j: int| 0 <= j < k ==> lex_lt(rv[j], xs),
            ensures
                k <= r.len(),
                rv == string_views(r@),
                forall|j: int| 0 <= j < k ==> lex_lt(rv[j], xs),
                k < r.len() ==> !lex_lt(rv[k as int], xs),
            decreases r.len() - k,
        {
            let less = string_less(&r[k], x);
            assert(rv[k as int] == r@[k as int]@);
            if !less {
                break;
            }
            k += 1;
        }
        assert(src.take(i + 1) =~= src.take(i as int).push(xs));
        proof {
            src.take(i as int).lemma_push_to_set_commute(xs);
        }
        if k < r.len() && !string_less(x, &r[k]) {
            proof {
                lemma_lex_total(rv[k as int], xs);
                assert(rv[k as int] == xs);
                assert(rv.to_set().contains(xs));
            }
        } else {
            proof {
                if k < r.len() {
                    lemma_lex_total(rv[k as int], xs);
                    lemma_lex_asymmetric(xs, rv[k as int]);
                }
                lemma_sorted_insert(rv, k as int, xs);
            }
            r.insert(k, x.clone());
            proof {
                assert(string_views(r@) =~= rv.insert(k as int, xs));
                assert(rv.insert(k as int, xs).to_set() =~= rv.to_set().insert(xs)) by {
                    assert forall|y: Seq<char>| rv.insert(k as int, xs).to_set().contains(y)
                        <==> rv.to_set().insert(xs).contains(y) by {
                        if rv.insert(k as int, xs).to_set().contains(y) {
                            let m = choose|m: int| 0 <= m < rv.len() + 1 && rv.insert(k as int, xs)[m] == y;
                            if m < k {
                                assert(rv[m] == y);
                            } else if m > k {
                                assert(rv[m - 1] == y);
                            }
                        }
                        if rv.to_set().insert(xs).contains(y) {
                            if y == xs {
                                assert(rv.insert(k as int, xs)[k as int] == y);
                            } else {
                                let m = choose|m: int| 0 <= m < rv.len() && rv[m] == y;
                                if m < k {
                                    assert(rv.insert(k as int, xs)[m] == y);
                                } else {
                                    assert(rv.insert(k as int, xs)[m + 1] == y);
                                }
                            }
                        }
                    }
                }
            }
        }
        i += 1;
    }
    assert(src.take(input.len() as int) =~= src);
    *values = r;
}

} // verus!
