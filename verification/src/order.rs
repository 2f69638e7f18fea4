//! The order of strings (by code point, which is also the order of their
//! UTF-8 bytes) and sorted collections of strings and integers.
use vstd::prelude::*;
use crate::text::chars_of;

verus! {

/// `a` comes before `b`: at the first position where they differ, `a` has
/// the smaller code point, or `a` is a proper prefix of `b`.
pub open spec fn lex_lt(a: Seq<char>, b: Seq<char>) -> bool
    decreases a.len(),
{
    if a.len() == 0 {
        b.len() > 0
    } else if b.len() == 0 {
        false
    } else if a[0] != b[0] {
        a[0] < b[0]
    } else {
        lex_lt(a.drop_first(), b.drop_first())
    }
}

/// No string comes before itself.
pub proof fn lemma_lex_irreflexive(a: Seq<char>)
    ensures
        !lex_lt(a, a),
    decreases a.len(),
{
    if a.len() > 0 {
        lemma_lex_irreflexive(a.drop_first());
    }
}

/// The order is transitive.
pub proof fn lemma_lex_transitive(a: Seq<char>, b: Seq<char>, c: Seq<char>)
    requires
        lex_lt(a, b),
        lex_lt(b, c),
    ensures
        lex_lt(a, c),
    decreases a.len(),
{
    if a.len() > 0 && b.len() > 0 && c.len() > 0 && a[0] == b[0] && b[0] == c[0] {
        lemma_lex_transitive(a.drop_first(), b.drop_first(), c.drop_first());
    }
}

/// Of two different strings, one comes before the other.
pub proof fn lemma_lex_total(a: Seq<char>, b: Seq<char>)
    requires
        a != b,
    ensures
        lex_lt(a, b) || lex_lt(b, a),
    decreases a.len(),
{
    if a.len() > 0 && b.len() > 0 && a[0] == b[0] {
        if a.drop_first() == b.drop_first() {
            assert(a =~= seq![a[0]] + a.drop_first());
            assert(b =~= seq![b[0]] + b.drop_first());
            assert(false);
        }
        lemma_lex_total(a.drop_first(), b.drop_first());
    } else if a.len() == 0 && b.len() == 0 {
        assert(a =~= b);
    }
}

/// Whether `a` comes before `b`.
pub fn str_lt(a: &str, b: &str) -> (res: bool)
    ensures
        res == lex_lt(a@, b@),
{
    let x = chars_of(a);
    let y = chars_of(b);
    let mut i: usize = 0;
    assert(a@.skip(0) =~= a@ && b@.skip(0) =~= b@);
    while i < x.len() && i < y.len()
        invariant
            i <= x.len(),
            i <= y.len(),
            x@ == a@,
            y@ == b@,
            lex_lt(a@, b@) == lex_lt(a@.skip(i as int), b@.skip(i as int)),
        decreases x.len() - i,
    {
        let ghost sa = a@.skip(i as int);
        let ghost sb = b@.skip(i as int);
        if x[i] != y[i] {
            assert(sa[0] == x@[i as int] && sb[0] == y@[i as int]);
            return x[i] < y[i];
        }
        assert(sa.drop_first() =~= a@.skip(i + 1));
        assert(sb.drop_first() =~= b@.skip(i + 1));
        i = i + 1;
    }
    i < y.len()
}

/// Every string comes before the ones after it.
pub open spec fn strictly_sorted(s: Seq<Seq<char>>) -> bool {
    forall|i: int, j: int| 0 <= i < j < s.len() ==> lex_lt(#[trigger] s[i], #[trigger] s[j])
}

/// No string comes before one ahead of it.
pub open spec fn sorted(s: Seq<Seq<char>>) -> bool {
    forall|i: int, j: int| 0 <= i < j < s.len() ==> !lex_lt(#[trigger] s[j], #[trigger] s[i])
}

/// The characters of each string.
pub open spec fn strings_of(v: Seq<String>) -> Seq<Seq<char>> {
    v.map_values(|s: String| s@)
}

/// The strings of `s` in order, each once.
pub open spec fn sorted_set(s: Seq<Seq<char>>) -> Seq<Seq<char>> {
    choose|r: Seq<Seq<char>>| strictly_sorted(r) && forall|x: Seq<char>| #[trigger] r.contains(x) <==> s.contains(x)
}

/// Two sequences in strict order with the same strings are equal.
pub proof fn lemma_strictly_sorted_unique(a: Seq<Seq<char>>, b: Seq<Seq<char>>)
    requires
        strictly_sorted(a),
        strictly_sorted(b),
        forall|x: Seq<char>| #![trigger a.contains(x)] #![trigger b.contains(x)] a.contains(x) <==> b.contains(x),
    ensures
        a == b,
    decreases a.len(),
{
    if a.len() == 0 {
        if b.len() > 0 {
            assert(b.contains(b[0]));
        }
        assert(a =~= b);
    } else {
        assert(a.contains(a[0]));
        let k = choose|k: int| 0 <= k < b.len() && b[k] == a[0];
        assert(b.contains(b[0]));
        let m = choose|m: int| 0 <= m < a.len() && a[m] == b[0];
        if k > 0 {
            assert(lex_lt(b[0], b[k]));
            if m == 0 {
                lemma_lex_irreflexive(a[0]);
            } else {
                assert(lex_lt(a[0], a[m]));
                lemma_lex_transitive(a[0], b[0], a[0]);
                lemma_lex_irreflexive(a[0]);
            }
        }
        assert(a[0] == b[0]);
        let a1 = a.drop_first();
        let b1 = b.drop_first();
        assert forall|x: Seq<char>| #![trigger a1.contains(x)] #![trigger b1.contains(x)] a1.contains(x) <==> b1.contains(x) by {
            if a1.contains(x) {
                let i = choose|i: int| 0 <= i < a1.len() && a1[i] == x;
                assert(lex_lt(a[0], a[i + 1]));
                assert(a.contains(x));
                let j = choose|j: int| 0 <= j < b.len() && b[j] == x;
                if j == 0 {
                    lemma_lex_irreflexive(x);
                }
                assert(b1[j - 1] == x);
            }
            if b1.contains(x) {
                let i = choose|i: int| 0 <= i < b1.len() && b1[i] == x;
                assert(lex_lt(b[0], b[i + 1]));
                assert(b.contains(x));
                let j = choose|j: int| 0 <= j < a.len() && a[j] == x;
                if j == 0 {
                    lemma_lex_irreflexive(x);
                }
                assert(a1[j - 1] == x);
            }
        }
        assert(strictly_sorted(a1)) by {
            assert forall|i: int, j: int| 0 <= i < j < a1.len() implies lex_lt(#[trigger] a1[i], #[trigger] a1[j]) by {
                assert(a1[i] == a[i + 1] && a1[j] == a[j + 1]);
            }
        }
        assert(strictly_sorted(b1)) by {
            assert forall|i: int, j: int| 0 <= i < j < b1.len() implies lex_lt(#[trigger] b1[i], #[trigger] b1[j]) by {
                assert(b1[i] == b[i + 1] && b1[j] == b[j + 1]);
            }
        }
        lemma_strictly_sorted_unique(a1, b1);
        assert(a =~= seq![a[0]] + a1);
        assert(b =~= seq![b[0]] + b1);
    }
}

/// The first index from `p` on whose string does not come before `x`.
pub open spec fn insert_position(r: Seq<Seq<char>>, x: Seq<char>, p: int) -> int
    decreases r.len() - p,
{
    if p < 0 || p >= r.len() || !lex_lt(r[p], x) { p } else { insert_position(r, x, p + 1) }
}

proof fn lemma_insert_position(r: Seq<Seq<char>>, x: Seq<char>, p: int)
    requires
        0 <= p <= r.len(),
        forall|j: int| 0 <= j < p ==> lex_lt(#[trigger] r[j], x),
    ensures
        p <= insert_position(r, x, p) <= r.len(),
        forall|j: int| 0 <= j < insert_position(r, x, p) ==> lex_lt(#[trigger] r[j], x),
        insert_position(r, x, p) < r.len() ==> !lex_lt(r[insert_position(r, x, p)], x),
    decreases r.len() - p,
{
    if p < r.len() && lex_lt(r[p], x) {
        lemma_insert_position(r, x, p + 1);
    }
}

/// Every sequence of strings has a sorted set: a sequence in strict order
/// with the same strings.
pub proof fn lemma_sorted_set_exists(s: Seq<Seq<char>>)
    ensures
        strictly_sorted(sorted_set(s)),
        forall|x: Seq<char>| #[trigger] sorted_set(s).contains(x) <==> s.contains(x),
    decreases s.len(),
{
    let w = witness_sorted_set(s);
    assert(strictly_sorted(w) && forall|x: Seq<char>| #[trigger] w.contains(x) <==> s.contains(x));
}

proof fn witness_sorted_set(s: Seq<Seq<char>>) -> (r: Seq<Seq<char>>)
    ensures
        strictly_sorted(r),
        forall|x: Seq<char>| #[trigger] r.contains(x) <==> s.contains(x),
    decreases s.len(),
{
    if s.len() == 0 {
        let r = Seq::<Seq<char>>::empty();
        r
    } else {
        let front = s.drop_last();
        let x = s.last();
        let r = witness_sorted_set(front);
        assert forall|y: Seq<char>| #[trigger] s.contains(y) <==> (front.contains(y) || y == x) by {
            assert(s =~= front.push(x));
            crate::detectors::symbol::lemma_contains_push(front, x, y);
        }
        if r.contains(x) {
            r
        } else {
            lemma_insert_position(r, x, 0);
            let p = insert_position(r, x, 0);
            if p < r.len() {
                assert(r[p] != x);
                lemma_lex_total(r[p], x);
            }
            let nr = r.insert(p, x);
            assert forall|i: int, j: int| 0 <= i < j < nr.len() implies lex_lt(#[trigger] nr[i], #[trigger] nr[j]) by {
                if j < p {
                } else if i < p && j == p {
                } else if i < p {
                    assert(nr[j] == r[j - 1]);
                    if j - 1 != p {
                        lemma_lex_transitive(r[i], r[p], r[j - 1]);
                    }
                } else if i == p {
                    assert(nr[j] == r[j - 1]);
                    if j - 1 > p {
                        lemma_lex_transitive(x, r[p], r[j - 1]);
                    }
                } else {
                    assert(nr[i] == r[i - 1] && nr[j] == r[j - 1]);
                }
            }
            assert forall|y: Seq<char>| #[trigger] nr.contains(y) <==> s.contains(y) by {
                if nr.contains(y) {
                    let k = choose|k: int| 0 <= k < nr.len() && nr[k] == y;
                    if k < p {
                        assert(r[k] == y);
                    } else if k > p {
                        assert(r[k - 1] == y);
                    }
                }
                if r.contains(y) {
                    let k = choose|k: int| 0 <= k < r.len() && r[k] == y;
                    if k < p {
                        assert(nr[k] == y);
                    } else {
                        assert(nr[k + 1] == y);
                    }
                }
                if y == x {
                    assert(nr[p] == y);
                }
            }
            nr
        }
    }
}

/// A sequence in strict order with the strings of `s` is `sorted_set(s)`.
pub proof fn lemma_sorted_set(s: Seq<Seq<char>>, r: Seq<Seq<char>>)
    requires
        strictly_sorted(r),
        forall|x: Seq<char>| #[trigger] r.contains(x) <==> s.contains(x),
    ensures
        sorted_set(s) == r,
{
    let c = sorted_set(s);
    assert(strictly_sorted(c) && forall|x: Seq<char>| #[trigger] c.contains(x) <==> s.contains(x));
    lemma_strictly_sorted_unique(c, r);
}

/// Adds `s` to the sorted strings `v` unless it is there already.
pub fn insert_unique(v: &mut Vec<String>, s: String)
    requires
        strictly_sorted(strings_of(old(v)@)),
    ensures
        strictly_sorted(strings_of(final(v)@)),
        forall|x: Seq<char>| strings_of(final(v)@).contains(x) <==> (strings_of(old(v)@).contains(x) || x == s@),
{
    let ghost w = strings_of(v@);
    let mut p: usize = 0;
    while p < v.len() && str_lt(v[p].as_str(), s.as_str())
        invariant
            p <= v.len(),
            w == strings_of(v@),
            forall|j: int| 0 <= j < p ==> lex_lt(#[trigger] w[j], s@),
        decreases v.len() - p,
    {
        assert(w[p as int] == v@[p as int]@);
        p = p + 1;
    }
    if p < v.len() {
        assert(w[p as int] == v@[p as int]@);
        if crate::text::str_eq(v[p].as_str(), s.as_str()) {
            assert(forall|x: Seq<char>| w.contains(x) <==> (w.contains(x) || x == s@));
            return;
        }
        proof { lemma_lex_total(w[p as int], s@); }
    }
    let ghost sv = s@;
    v.insert(p, s);
    proof {
        let nw = strings_of(v@);
        assert(nw =~= w.insert(p as int, sv));
        assert forall|i: int, j: int| 0 <= i < j < nw.len() implies lex_lt(#[trigger] nw[i], #[trigger] nw[j]) by {
            if j < p {
            } else if i < p && j == p {
            } else if i < p {
                assert(nw[j] == w[j - 1]);
                if j - 1 == p as int {
                } else {
                    lemma_lex_transitive(w[i], w[p as int], w[j - 1]);
                }
            } else if i == p {
                assert(nw[j] == w[j - 1]);
                if j - 1 > p {
                    lemma_lex_transitive(sv, w[p as int], w[j - 1]);
                }
            } else {
                assert(nw[i] == w[i - 1] && nw[j] == w[j - 1]);
            }
        }
        assert forall|x: Seq<char>| nw.contains(x) <==> (w.contains(x) || x == sv) by {
            if nw.contains(x) {
                let k = choose|k: int| 0 <= k < nw.len() && nw[k] == x;
                if k < p {
                    assert(w[k] == x);
                } else if k > p {
                    assert(w[k - 1] == x);
                }
            }
            if w.contains(x) {
                let k = choose|k: int| 0 <= k < w.len() && w[k] == x;
                if k < p {
                    assert(nw[k] == x);
                } else {
                    assert(nw[k + 1] == x);
                }
            }
            if x == sv {
                assert(nw[p as int] == x);
            }
        }
    }
}

/// Adds `s` to the sorted strings `v`, after the strings equal to it.
pub fn insert_sorted(v: &mut Vec<String>, s: String)
    requires
        sorted(strings_of(old(v)@)),
    ensures
        sorted(strings_of(final(v)@)),
        strings_of(final(v)@).to_multiset() == strings_of(old(v)@).to_multiset().insert(s@),
{
    let ghost w = strings_of(v@);
    let mut p: usize = 0;
    while p < v.len() && !str_lt(s.as_str(), v[p].as_str())
        invariant
            p <= v.len(),
            w == strings_of(v@),
            forall|j: int| 0 <= j < p ==> !lex_lt(s@, #[trigger] w[j]),
        decreases v.len() - p,
    {
        assert(w[p as int] == v@[p as int]@);
        p = p + 1;
    }
    if p < v.len() {
        assert(w[p as int] == v@[p as int]@);
    }
    let ghost sv = s@;
    v.insert(p, s);
    proof {
        let nw = strings_of(v@);
        assert(nw =~= w.insert(p as int, sv));
        assert forall|i: int, j: int| 0 <= i < j < nw.len() implies !lex_lt(#[trigger] nw[j], #[trigger] nw[i]) by {
            if j < p {
            } else if i < p && j == p {
            } else if i < p {
                assert(nw[j] == w[j - 1]);
            } else if i == p {
                assert(nw[j] == w[j - 1]);
                if lex_lt(w[j - 1], sv) {
                    lemma_lex_transitive(w[j - 1], sv, w[p as int]);
                    if j - 1 == p as int {
                        lemma_lex_irreflexive(w[p as int]);
                    }
                }
            } else {
                assert(nw[i] == w[i - 1] && nw[j] == w[j - 1]);
            }
        }
        vstd::seq_lib::to_multiset_insert(w, p as int, sv);
    }
}

/// The integers in increasing order, each once.
pub open spec fn increasing(s: Seq<u64>) -> bool {
    forall|i: int, j: int| 0 <= i < j < s.len() ==> #[trigger] s[i] < #[trigger] s[j]
}

/// Adds `x` to the increasing integers `v` unless it is there already.
pub fn insert_unique_u64(v: &mut Vec<u64>, x: u64)
    requires
        increasing(old(v)@),
    ensures
        increasing(final(v)@),
        forall|y: u64| final(v)@.contains(y) <==> (old(v)@.contains(y) || y == x),
{
    let ghost w = v@;
    let mut p: usize = 0;
    while p < v.len() && v[p] < x
        invariant
            p <= v.len(),
            w == v@,
            forall|j: int| 0 <= j < p ==> #[trigger] w[j] < x,
        decreases v.len() - p,
    {
        p = p + 1;
    }
    if p < v.len() && v[p] == x {
        return;
    }
    v.insert(p, x);
    proof {
        let nw = v@;
        assert(nw =~= w.insert(p as int, x));
        assert forall|i: int, j: int| 0 <= i < j < nw.len() implies #[trigger] nw[i] < #[trigger] nw[j] by {
            if i >= p && j > p {
                assert(nw[j] == w[j - 1]);
            }
            if i > p {
                assert(nw[i] == w[i - 1]);
            }
        }
        assert forall|y: u64| nw.contains(y) <==> (w.contains(y) || y == x) by {
            if nw.contains(y) {
                let k = choose|k: int| 0 <= k < nw.len() && nw[k] == y;
                if k < p {
                    assert(w[k] == y);
                } else if k > p {
                    assert(w[k - 1] == y);
                }
            }
            if w.contains(y) {
                let k = choose|k: int| 0 <= k < w.len() && w[k] == y;
                if k < p {
                    assert(nw[k] == y);
                } else {
                    assert(nw[k + 1] == y);
                }
            }
            if y == x {
                assert(nw[p as int] == y);
            }
        }
    }
}

/// Two sorted sequences with the same strings, each as often, are equal.
pub proof fn lemma_sorted_unique(a: Seq<Seq<char>>, b: Seq<Seq<char>>)
    requires
        sorted(a),
        sorted(b),
        a.to_multiset() == b.to_multiset(),
    ensures
        a == b,
    decreases a.len(),
{
    broadcast use vstd::seq_lib::group_to_multiset_ensures;
    assert(a.len() == a.to_multiset().len());
    assert(b.len() == b.to_multiset().len());
    if a.len() == 0 {
        assert(a =~= b);
    } else {
        assert(a.contains(a[0]));
        assert(a.to_multiset().count(a[0]) > 0);
        assert(b.contains(a[0]));
        assert(b.to_multiset().count(b[0]) > 0);
        assert(a.contains(b[0]));
        let k = choose|k: int| 0 <= k < b.len() && b[k] == a[0];
        let m = choose|m: int| 0 <= m < a.len() && a[m] == b[0];
        if a[0] != b[0] {
            lemma_lex_total(a[0], b[0]);
            if lex_lt(a[0], b[0]) {
                assert(k > 0);
                assert(!lex_lt(b[k], b[0]));
            } else {
                assert(m > 0);
                assert(!lex_lt(a[m], a[0]));
            }
        }
        let a1 = a.drop_first();
        let b1 = b.drop_first();
        assert(a.remove(0) =~= a1);
        assert(b.remove(0) =~= b1);
        assert(a1.to_multiset() =~= a.to_multiset().remove(a[0]));
        assert(b1.to_multiset() =~= b.to_multiset().remove(b[0]));
        assert forall|i: int, j: int| 0 <= i < j < a1.len() implies !lex_lt(#[trigger] a1[j], #[trigger] a1[i]) by {
            assert(a1[j] == a[j + 1] && a1[i] == a[i + 1]);
        }
        assert forall|i: int, j: int| 0 <= i < j < b1.len() implies !lex_lt(#[trigger] b1[j], #[trigger] b1[i]) by {
            assert(b1[j] == b[j + 1] && b1[i] == b[i + 1]);
        }
        lemma_sorted_unique(a1, b1);
        assert(a =~= seq![a[0]] + a1);
        assert(b =~= seq![b[0]] + b1);
    }
}

} // verus!
