//! Ordered collections of dependency names.
//!
//! Candidate dependency names are kept as lexicographically sorted vectors
//! of strings, built by insertion; this makes the derived candidate set
//! deterministic for a given manifest.

use vstd::prelude::*;

use vstd::seq_lib::lemma_multiset_commutative;

use crate::text::{chars_of, lemma_lex_lt_irreflexive, lemma_lex_lt_transitive,
    lemma_lex_lt_trichotomy, lex_le, lex_lt, lex_lt_exec, seq_eq};

verus! {

/// Inserts `x` into `s` in front of the first element that `x` is not
/// greater than.  For a sorted `s` the result is sorted; duplicates are
/// kept.
pub open spec fn sorted_insert(s: Seq<Seq<char>>, x: Seq<char>) -> Seq<Seq<char>>
    decreases s.len(),
{
    if s.len() == 0 {
        seq![x]
    } else if !lex_lt(s[0], x) {
        seq![x] + s
    } else {
        seq![s[0]] + sorted_insert(s.drop_first(), x)
    }
}

/// As [`sorted_insert`], except that `x` is dropped when it is already
/// present.  For a strictly sorted `s` the result is strictly sorted.
pub open spec fn sorted_insert_unique(s: Seq<Seq<char>>, x: Seq<char>) -> Seq<Seq<char>>
    decreases s.len(),
{
    if s.len() == 0 {
        seq![x]
    } else if lex_lt(x, s[0]) {
        seq![x] + s
    } else if x == s[0] {
        s
    } else {
        seq![s[0]] + sorted_insert_unique(s.drop_first(), x)
    }
}

/// All the names of `s`, sorted; duplicates are kept.
pub open spec fn sort_names_spec(s: Seq<Seq<char>>) -> Seq<Seq<char>>
    decreases s.len(),
{
    if s.len() == 0 {
        Seq::empty()
    } else {
        sorted_insert(sort_names_spec(s.drop_last()), s.last())
    }
}

proof fn lemma_cons_contains(h: Seq<char>, s: Seq<Seq<char>>, y: Seq<char>)
    ensures
        (seq![h] + s).contains(y) <==> (y == h || s.contains(y)),
{
    let c = seq![h] + s;
    if c.contains(y) {
        let i = choose|i: int| 0 <= i < c.len() && c[i] == y;
        if i == 0 {
            assert(y == h);
        } else {
            assert(s[i - 1] == y);
            assert(s.contains(y));
        }
    }
    if y == h {
        assert(c[0] == y);
        assert(c.contains(y));
    }
    if s.contains(y) {
        let i = choose|i: int| 0 <= i < s.len() && s[i] == y;
        assert(c[i + 1] == y);
        assert(c.contains(y));
    }
}

/// An element is in `sorted_insert_unique(s, x)` exactly when it is in `s`
/// or is `x` itself.
pub proof fn lemma_sorted_insert_unique_membership(s: Seq<Seq<char>>, x: Seq<char>, y: Seq<char>)
    ensures
        sorted_insert_unique(s, x).contains(y) <==> (s.contains(y) || y == x),
    decreases s.len(),
{
    if s.len() == 0 {
        lemma_cons_contains(x, Seq::empty(), y);
        assert(seq![x] + Seq::<Seq<char>>::empty() =~= seq![x]);
        assert(!s.contains(y));
    } else {
        assert(seq![s[0]] + s.drop_first() =~= s);
        lemma_cons_contains(s[0], s.drop_first(), y);
        if lex_lt(x, s[0]) {
            lemma_cons_contains(x, s, y);
        } else if x == s[0] {
            assert(s.contains(x)) by {
                assert(s[0] == x);
            }
        } else {
            lemma_sorted_insert_unique_membership(s.drop_first(), x, y);
            lemma_cons_contains(s[0], sorted_insert_unique(s.drop_first(), x), y);
        }
    }
}

/// An element is in `sorted_insert(s, x)` exactly when it is in `s` or is
/// `x` itself.
pub proof fn lemma_sorted_insert_membership(s: Seq<Seq<char>>, x: Seq<char>, y: Seq<char>)
    ensures
        sorted_insert(s, x).contains(y) <==> (s.contains(y) || y == x),
    decreases s.len(),
{
    if s.len() == 0 {
        lemma_cons_contains(x, Seq::empty(), y);
        assert(seq![x] + Seq::<Seq<char>>::empty() =~= seq![x]);
        assert(!s.contains(y));
    } else {
        assert(seq![s[0]] + s.drop_first() =~= s);
        lemma_cons_contains(s[0], s.drop_first(), y);
        if !lex_lt(s[0], x) {
            lemma_cons_contains(x, s, y);
        } else {
            lemma_sorted_insert_membership(s.drop_first(), x, y);
            lemma_cons_contains(s[0], sorted_insert(s.drop_first(), x), y);
        }
    }
}

/// Strictly ascending in lexicographic order; in particular, free of
/// duplicates.
pub open spec fn strictly_sorted(s: Seq<Seq<char>>) -> bool {
    forall|i: int, j: int| 0 <= i < j < s.len() ==> lex_lt(#[trigger] s[i], #[trigger] s[j])
}

/// Inserting into a strictly sorted sequence keeps it strictly sorted.
pub proof fn lemma_sorted_insert_unique_sorted(s: Seq<Seq<char>>, x: Seq<char>)
    requires
        strictly_sorted(s),
    ensures
        strictly_sorted(sorted_insert_unique(s, x)),
    decreases s.len(),
{
    if s.len() == 0 {
    } else if lex_lt(x, s[0]) {
        let r = seq![x] + s;
        assert forall|i: int, j: int| 0 <= i < j < r.len() implies lex_lt(r[i], r[j]) by {
            if i == 0 {
                if j > 1 {
                    lemma_lex_lt_transitive(x, s[0], s[j - 1]);
                }
            } else {
                assert(lex_lt(s[i - 1], s[j - 1]));
            }
        }
    } else if x == s[0] {
    } else {
        assert(strictly_sorted(s.drop_first())) by {
            assert forall|i: int, j: int|
                0 <= i < j < s.drop_first().len() implies lex_lt(
                s.drop_first()[i],
                s.drop_first()[j],
            ) by {
                assert(lex_lt(s[i + 1], s[j + 1]));
            }
        }
        lemma_sorted_insert_unique_sorted(s.drop_first(), x);
        lemma_lex_lt_trichotomy(x, s[0]);
        let t = sorted_insert_unique(s.drop_first(), x);
        let r = seq![s[0]] + t;
        assert forall|i: int, j: int| 0 <= i < j < r.len() implies lex_lt(r[i], r[j]) by {
            if i == 0 {
                assert(t.contains(t[j - 1]));
                lemma_sorted_insert_unique_membership(s.drop_first(), x, t[j - 1]);
                if t[j - 1] == x {
                    assert(lex_lt(s[0], x));
                } else {
                    let k = choose|k: int|
                        0 <= k < s.drop_first().len() && s.drop_first()[k] == t[j - 1];
                    assert(s[k + 1] == t[j - 1]);
                    assert(lex_lt(s[0], s[k + 1]));
                }
            } else {
                assert(lex_lt(t[i - 1], t[j - 1]));
            }
        }
    }
}

/// Ascending in lexicographic order; duplicates may repeat.
pub open spec fn sorted_le(s: Seq<Seq<char>>) -> bool {
    forall|i: int, j: int| 0 <= i < j < s.len() ==> lex_le(#[trigger] s[i], #[trigger] s[j])
}

proof fn lemma_lex_lt_asymmetric(a: Seq<char>, b: Seq<char>)
    requires
        lex_lt(a, b),
    ensures
        !lex_lt(b, a),
{
    if lex_lt(b, a) {
        lemma_lex_lt_transitive(a, b, a);
        lemma_lex_lt_irreflexive(a);
    }
}

proof fn lemma_lex_le_transitive(a: Seq<char>, b: Seq<char>, c: Seq<char>)
    requires
        lex_le(a, b),
        lex_le(b, c),
    ensures
        lex_le(a, c),
{
    if lex_lt(c, a) {
        lemma_lex_lt_trichotomy(a, b);
        if lex_lt(a, b) {
            lemma_lex_lt_transitive(c, a, b);
        }
    }
}

/// Inserting into a sorted sequence keeps it sorted.
pub proof fn lemma_sorted_insert_sorted(s: Seq<Seq<char>>, x: Seq<char>)
    requires
        sorted_le(s),
    ensures
        sorted_le(sorted_insert(s, x)),
    decreases s.len(),
{
    if s.len() == 0 {
    } else if !lex_lt(s[0], x) {
        let r = seq![x] + s;
        assert forall|i: int, j: int| 0 <= i < j < r.len() implies lex_le(r[i], r[j]) by {
            if i == 0 {
                if j > 1 {
                    lemma_lex_le_transitive(x, s[0], s[j - 1]);
                }
            } else {
                assert(lex_le(s[i - 1], s[j - 1]));
            }
        }
    } else {
        assert(sorted_le(s.drop_first())) by {
            assert forall|i: int, j: int|
                0 <= i < j < s.drop_first().len() implies lex_le(
                s.drop_first()[i],
                s.drop_first()[j],
            ) by {
                assert(lex_le(s[i + 1], s[j + 1]));
            }
        }
        lemma_sorted_insert_sorted(s.drop_first(), x);
        lemma_lex_lt_asymmetric(s[0], x);
        let t = sorted_insert(s.drop_first(), x);
        let r = seq![s[0]] + t;
        assert forall|i: int, j: int| 0 <= i < j < r.len() implies lex_le(r[i], r[j]) by {
            if i == 0 {
                assert(t.contains(t[j - 1]));
                lemma_sorted_insert_membership(s.drop_first(), x, t[j - 1]);
                if t[j - 1] == x {
                    assert(lex_le(s[0], x));
                } else {
                    let k = choose|k: int|
                        0 <= k < s.drop_first().len() && s.drop_first()[k] == t[j - 1];
                    assert(s[k + 1] == t[j - 1]);
                    assert(lex_le(s[0], s[k + 1]));
                }
            } else {
                assert(lex_le(t[i - 1], t[j - 1]));
            }
        }
    }
}

/// `sorted_insert` adds exactly one occurrence of `x` to the contents.
pub proof fn lemma_sorted_insert_multiset(s: Seq<Seq<char>>, x: Seq<char>)
    ensures
        sorted_insert(s, x).to_multiset() == s.to_multiset().insert(x),
    decreases s.len(),
{
    broadcast use vstd::seq_lib::to_multiset_build;
    broadcast use vstd::multiset::group_multiset_axioms;

    if s.len() == 0 {
        assert(seq![x] =~= s.push(x));
    } else if !lex_lt(s[0], x) {
        lemma_multiset_commutative(seq![x], s);
        assert(seq![x] =~= Seq::<Seq<char>>::empty().push(x));
        assert(seq![x].to_multiset() =~= Seq::<Seq<char>>::empty().to_multiset().insert(x));
        assert(s =~= Seq::<Seq<char>>::empty() + s);
        lemma_multiset_commutative(Seq::<Seq<char>>::empty(), s);
        assert((seq![x] + s).to_multiset() =~= s.to_multiset().insert(x));
    } else {
        lemma_sorted_insert_multiset(s.drop_first(), x);
        let t = sorted_insert(s.drop_first(), x);
        assert(s =~= seq![s[0]] + s.drop_first());
        lemma_multiset_commutative(seq![s[0]], s.drop_first());
        lemma_multiset_commutative(seq![s[0]], t);
        assert((seq![s[0]] + t).to_multiset() =~= s.to_multiset().insert(x));
    }
}

/// Sorting law: the sorted names are exactly the given names, sorted —
/// same names with the same multiplicities, in ascending order.
pub proof fn lemma_sort_names_spec_is_sorted_permutation(s: Seq<Seq<char>>)
    ensures
        sorted_le(sort_names_spec(s)),
        sort_names_spec(s).to_multiset() == s.to_multiset(),
    decreases s.len(),
{
    broadcast use vstd::seq_lib::to_multiset_build;

    if s.len() > 0 {
        let pre = s.drop_last();
        let sorted_pre = sort_names_spec(pre);
        lemma_sort_names_spec_is_sorted_permutation(pre);
        lemma_sorted_insert_sorted(sorted_pre, s.last());
        lemma_sorted_insert_multiset(sorted_pre, s.last());
        assert(sort_names_spec(s) == sorted_insert(sorted_pre, s.last()));
        assert(sort_names_spec(s).to_multiset() == pre.to_multiset().insert(s.last()));
        assert(s =~= pre.push(s.last()));
        assert(pre.push(s.last()).to_multiset() =~= pre.to_multiset().insert(s.last()));
        assert(s.to_multiset() == pre.to_multiset().insert(s.last()));
    } else {
        assert(s =~= Seq::<Seq<char>>::empty());
    }
}

/// Inserts a name into a vector kept in `sorted_insert` order.
pub fn insert_name(v: Vec<String>, x: String) -> (r: Vec<String>)
    ensures
        r.deep_view() == sorted_insert(v.deep_view(), x@),
    decreases v.len(),
{
    let ghost s = v.deep_view();
    if v.len() == 0 {
        let mut r = v;
        r.push(x);
        assert(r.deep_view() =~= sorted_insert(s, x@));
        r
    } else {
        let cx = chars_of(x.as_str());
        let c0 = chars_of(v[0].as_str());
        assert(c0@ == s[0]);
        if !lex_lt_exec(&c0, &cx) {
            let mut r = v;
            r.insert(0, x);
            assert(r.deep_view() =~= seq![x@] + s);
            r
        } else {
            let mut v = v;
            let first = v.remove(0);
            assert(v.deep_view() =~= s.drop_first());
            let rest = insert_name(v, x);
            let mut r = rest;
            r.insert(0, first);
            assert(r.deep_view() =~= seq![s[0]] + sorted_insert(s.drop_first(), x@));
            r
        }
    }
}

/// Inserts a name into a vector kept in `sorted_insert_unique` order.
pub fn insert_name_unique(v: Vec<String>, x: String) -> (r: Vec<String>)
    ensures
        r.deep_view() == sorted_insert_unique(v.deep_view(), x@),
    decreases v.len(),
{
    let ghost s = v.deep_view();
    if v.len() == 0 {
        let mut r = v;
        r.push(x);
        assert(r.deep_view() =~= sorted_insert_unique(s, x@));
        r
    } else {
        let cx = chars_of(x.as_str());
        let c0 = chars_of(v[0].as_str());
        assert(c0@ == s[0]);
        if lex_lt_exec(&cx, &c0) {
            let mut r = v;
            r.insert(0, x);
            assert(r.deep_view() =~= seq![x@] + s);
            r
        } else if seq_eq(&cx, &c0) {
            v
        } else {
            let mut v = v;
            let first = v.remove(0);
            assert(v.deep_view() =~= s.drop_first());
            let rest = insert_name_unique(v, x);
            let mut r = rest;
            r.insert(0, first);
            assert(r.deep_view() =~= seq![s[0]] + sorted_insert_unique(s.drop_first(), x@));
            r
        }
    }
}

/// Sorts a vector of names, keeping duplicates.
pub fn sort_names(v: Vec<String>) -> (r: Vec<String>)
    ensures
        r.deep_view() == sort_names_spec(v.deep_view()),
{
    let ghost s = v.deep_view();
    let mut acc: Vec<String> = Vec::new();
    let mut i: usize = 0;
    assert(acc.deep_view() =~= sort_names_spec(s.subrange(0, 0)));
    while i < v.len()
        invariant
            i <= v.len(),
            v.len() == v@.len(),
            s == v.deep_view(),
            acc.deep_view() == sort_names_spec(s.subrange(0, i as int)),
        decreases v@.len() - i,
    {
        let x = v[i].clone();
        assert(x@ == s[i as int]);
        acc = insert_name(acc, x);
        i = i + 1;
        proof {
            assert(s.subrange(0, i as int).drop_last() =~= s.subrange(0, i - 1));
            assert(s.subrange(0, i as int).last() == s[i - 1]);
        }
    }
    assert(s.subrange(0, v@.len() as int) =~= s);
    acc
}

} // verus!
