//! Lexicographic ordering of rendered lines, and sorting by that order.
//!
//! Lines are compared by code point. On UTF-8 encoded text this coincides
//! with byte-wise comparison, since UTF-8 encoding preserves code-point
//! order; the listing therefore sorts exactly as a byte-wise sort would.

use vstd::prelude::*;

verus! {

/// Lexicographic "less or equal" on character sequences, by code point.
pub open spec fn lex_le(a: Seq<char>, b: Seq<char>) -> bool
    decreases a.len(),
{
    if a.len() == 0 {
        true
    } else if b.len() == 0 {
        false
    } else if a[0] == b[0] {
        lex_le(a.skip(1), b.skip(1))
    } else {
        a[0] < b[0]
    }
}

/// Every pair of lines is ordered one way or the other.
pub proof fn lemma_lex_le_total(a: Seq<char>, b: Seq<char>)
    ensures
        lex_le(a, b) || lex_le(b, a),
    decreases a.len(),
{
    if a.len() == 0 {
    } else if b.len() == 0 {
    } else if a[0] == b[0] {
        lemma_lex_le_total(a.skip(1), b.skip(1));
    }
}

/// The order is transitive.
pub proof fn lemma_lex_le_trans(a: Seq<char>, b: Seq<char>, c: Seq<char>)
    requires
        lex_le(a, b),
        lex_le(b, c),
    ensures
        lex_le(a, c),
    decreases a.len(),
{
    if a.len() == 0 {
    } else if b.len() == 0 {
    } else if c.len() == 0 {
    } else {
        if a[0] == b[0] && b[0] == c[0] {
            lemma_lex_le_trans(a.skip(1), b.skip(1), c.skip(1));
        }
    }
}

/// A sequence of lines in ascending lexicographic order.
pub open spec fn lines_sorted(s: Seq<Seq<char>>) -> bool {
    forall|i: int, j: int| 0 <= i <= j < s.len() ==> lex_le(s[i], s[j])
}

/// Where a line lands when inserted into an already sorted sequence:
/// before the first element it is less than or equal to.
pub open spec fn spec_insert(x: Seq<char>, s: Seq<Seq<char>>) -> Seq<Seq<char>>
    decreases s.len(),
{
    if s.len() == 0 {
        seq![x]
    } else if lex_le(x, s[0]) {
        seq![x] + s
    } else {
        seq![s[0]] + spec_insert(x, s.skip(1))
    }
}

/// The sorted arrangement of a sequence of lines: each element inserted,
/// in turn, into the sorted arrangement of the rest.
pub open spec fn spec_sort(s: Seq<Seq<char>>) -> Seq<Seq<char>>
    decreases s.len(),
{
    if s.len() == 0 {
        Seq::empty()
    } else {
        spec_insert(s[0], spec_sort(s.skip(1)))
    }
}

/// Every line of an insertion's result is either the inserted line or one of
/// the lines that were already there.
proof fn lemma_insert_elems(x: Seq<char>, s: Seq<Seq<char>>)
    ensures
        spec_insert(x, s).len() == s.len() + 1,
        forall|k: int|
            0 <= k < spec_insert(x, s).len() ==> (#[trigger] spec_insert(x, s)[k] == x
                || s.contains(spec_insert(x, s)[k])),
    decreases s.len(),
{
    if s.len() == 0 {
    } else if lex_le(x, s[0]) {
        assert forall|k: int| 0 <= k < spec_insert(x, s).len() implies (#[trigger] spec_insert(
            x,
            s,
        )[k] == x || s.contains(spec_insert(x, s)[k])) by {
            if k > 0 {
                assert(spec_insert(x, s)[k] == s[k - 1]);
            }
        }
    } else {
        lemma_insert_elems(x, s.skip(1));
        let t = spec_insert(x, s.skip(1));
        assert forall|k: int| 0 <= k < spec_insert(x, s).len() implies (#[trigger] spec_insert(
            x,
            s,
        )[k] == x || s.contains(spec_insert(x, s)[k])) by {
            if k == 0 {
                assert(s[0] == spec_insert(x, s)[0]);
            } else {
                let e = t[k - 1];
                assert(spec_insert(x, s)[k] == e);
                if e != x {
                    let w = choose|w: int| 0 <= w < s.skip(1).len() && s.skip(1)[w] == e;
                    assert(s[w + 1] == e);
                }
            }
        }
    }
}

/// Inserting a line into a sorted sequence leaves it sorted.
pub proof fn lemma_insert_keeps_sorted(x: Seq<char>, s: Seq<Seq<char>>)
    requires
        lines_sorted(s),
    ensures
        lines_sorted(spec_insert(x, s)),
    decreases s.len(),
{
    if s.len() == 0 {
        lemma_lex_le_total(x, x);
    } else if lex_le(x, s[0]) {
        let r = seq![x] + s;
        assert forall|i: int, j: int| 0 <= i <= j < r.len() implies lex_le(r[i], r[j]) by {
            if i == 0 && j == 0 {
                lemma_lex_le_total(x, x);
            } else if i == 0 {
                assert(lex_le(s[0], s[j - 1]));
                lemma_lex_le_trans(x, s[0], s[j - 1]);
            } else {
                assert(lex_le(s[i - 1], s[j - 1]));
            }
        }
    } else {
        assert forall|i: int, j: int| 0 <= i <= j < s.skip(1).len() implies lex_le(
            s.skip(1)[i],
            s.skip(1)[j],
        ) by {
            assert(lex_le(s[i + 1], s[j + 1]));
        }
        lemma_insert_keeps_sorted(x, s.skip(1));
        lemma_insert_elems(x, s.skip(1));
        lemma_lex_le_total(x, s[0]);
        let t = spec_insert(x, s.skip(1));
        let r = seq![s[0]] + t;
        assert forall|i: int, j: int| 0 <= i <= j < r.len() implies lex_le(r[i], r[j]) by {
            if i == 0 {
                if j == 0 {
                    lemma_lex_le_total(s[0], s[0]);
                } else {
                    let e = t[j - 1];
                    assert(r[j] == e);
                    if e == x {
                    } else {
                        let w = choose|w: int| 0 <= w < s.skip(1).len() && s.skip(1)[w] == e;
                        assert(s[w + 1] == e);
                        assert(lex_le(s[0], s[w + 1]));
                    }
                }
            } else {
                assert(lex_le(t[i - 1], t[j - 1]));
            }
        }
    }
}

/// An insertion adds exactly the inserted line: the multiset of lines is the
/// old multiset plus that line.
pub proof fn lemma_insert_multiset(x: Seq<char>, s: Seq<Seq<char>>)
    ensures
        spec_insert(x, s).to_multiset() == s.to_multiset().insert(x),
    decreases s.len(),
{
    broadcast use vstd::seq_lib::group_to_multiset_ensures;
    broadcast use vstd::multiset::group_multiset_axioms;

    if s.len() == 0 {
        assert(s.push(x) =~= seq![x]);
        assert(spec_insert(x, s).to_multiset() =~= s.to_multiset().insert(x));
    } else if lex_le(x, s[0]) {
        vstd::seq_lib::lemma_multiset_commutative(seq![x], s);
        assert(s.push(x) =~= s + seq![x]);
        vstd::seq_lib::lemma_multiset_commutative(s, seq![x]);
        assert(spec_insert(x, s).to_multiset() =~= s.to_multiset().insert(x));
    } else {
        lemma_insert_multiset(x, s.skip(1));
        vstd::seq_lib::lemma_multiset_commutative(seq![s[0]], spec_insert(x, s.skip(1)));
        assert(s =~= seq![s[0]] + s.skip(1));
        vstd::seq_lib::lemma_multiset_commutative(seq![s[0]], s.skip(1));
        assert(spec_insert(x, s).to_multiset() =~= s.to_multiset().insert(x));
    }
}

/// Sorting arranges the lines in ascending lexicographic order and keeps
/// exactly the same lines, with their multiplicities.
pub proof fn lemma_sort_ensures(s: Seq<Seq<char>>)
    ensures
        lines_sorted(spec_sort(s)),
        spec_sort(s).to_multiset() == s.to_multiset(),
    decreases s.len(),
{
    broadcast use vstd::seq_lib::group_to_multiset_ensures;
    broadcast use vstd::multiset::group_multiset_axioms;

    if s.len() == 0 {
        assert(spec_sort(s) =~= s);
    } else {
        lemma_sort_ensures(s.skip(1));
        lemma_insert_keeps_sorted(s[0], spec_sort(s.skip(1)));
        lemma_insert_multiset(s[0], spec_sort(s.skip(1)));
        assert(s =~= seq![s[0]] + s.skip(1));
        vstd::seq_lib::lemma_multiset_commutative(seq![s[0]], s.skip(1));
        assert(seq![s[0]] =~= Seq::<Seq<char>>::empty().push(s[0]));
        assert(spec_sort(s).to_multiset() =~= s.to_multiset());
    }
}

/// Compares two strings lexicographically by code point.
pub fn str_le(a: &str, b: &str) -> (r: bool)
    ensures
        r == lex_le(a@, b@),
{
    let alen = a.unicode_len();
    let blen = b.unicode_len();
    let mut i: usize = 0;
    assert(a@.skip(0) =~= a@);
    assert(b@.skip(0) =~= b@);
    loop
        invariant
            i <= alen,
            i <= blen,
            alen == a@.len(),
            blen == b@.len(),
            lex_le(a@, b@) == lex_le(a@.skip(i as int), b@.skip(i as int)),
        decreases alen - i,
    {
        if i == alen {
            assert(a@.skip(i as int).len() == 0);
            return true;
        }
        if i == blen {
            assert(b@.skip(i as int).len() == 0);
            return false;
        }
        let ca = a.get_char(i);
        let cb = b.get_char(i);
        assert(a@.skip(i as int)[0] == a@[i as int]);
        assert(b@.skip(i as int)[0] == b@[i as int]);
        if ca != cb {
            return ca < cb;
        }
        proof {
            assert(a@.skip(i as int).skip(1) =~= a@.skip(i as int + 1));
            assert(b@.skip(i as int).skip(1) =~= b@.skip(i as int + 1));
        }
        i = i + 1;
    }
}

/// Inserts a line into an already built sequence at the position
/// `spec_insert` describes.
pub fn insert_sorted(x: String, v: &Vec<String>) -> (r: Vec<String>)
    ensures
        r@.map_values(|t: String| t@) == spec_insert(x@, v@.map_values(|t: String| t@)),
{
    let ghost s = v@.map_values(|t: String| t@);
    let mut out: Vec<String> = Vec::new();
    let mut i: usize = 0;
    proof {
        assert(s.skip(0) =~= s);
        assert(s.take(0) + s.skip(0) =~= s);
    }
    loop
        invariant
            i <= v.len(),
            s == v@.map_values(|t: String| t@),
            s.len() == v.len(),
            out@.map_values(|t: String| t@) =~= s.take(i as int),
            spec_insert(x@, s) == s.take(i as int) + spec_insert(x@, s.skip(i as int)),
        ensures
            i <= v.len(),
            out@.map_values(|t: String| t@) =~= s.take(i as int),
            spec_insert(x@, s) == s.take(i as int) + spec_insert(x@, s.skip(i as int)),
            i == v.len() || lex_le(x@, s[i as int]),
        decreases v.len() - i,
    {
        if i == v.len() {
            break;
        }
        assert(s[i as int] == v@[i as int]@);
        if str_le(x.as_str(), v[i].as_str()) {
            break;
        }
        proof {
            assert(s.skip(i as int)[0] == s[i as int]);
            assert(s.skip(i as int).skip(1) =~= s.skip(i as int + 1));
            assert(seq![s[i as int]] + spec_insert(x@, s.skip(i as int + 1)) == spec_insert(
                x@,
                s.skip(i as int),
            ));
            assert(s.take(i as int) + (seq![s[i as int]] + spec_insert(x@, s.skip(i as int + 1)))
                =~= s.take(i as int + 1) + spec_insert(x@, s.skip(i as int + 1)));
        }
        out.push(v[i].clone());
        i = i + 1;
    }
    let ghost p = i as int;
    out.push(x);
    proof {
        assert(out@.map_values(|t: String| t@) =~= s.take(p) + seq![x@] + s.subrange(p, p));
    }
    let mut j: usize = i;
    while j < v.len()
        invariant
            0 <= p <= j <= v.len(),
            s == v@.map_values(|t: String| t@),
            s.len() == v.len(),
            out@.map_values(|t: String| t@) =~= s.take(p) + seq![x@] + s.subrange(p, j as int),
        decreases v.len() - j,
    {
        proof {
            assert(s[j as int] == v@[j as int]@);
            assert((s.take(p) + seq![x@] + s.subrange(p, j as int)).push(s[j as int]) =~= s.take(p)
                + seq![x@] + s.subrange(p, j as int + 1));
        }
        out.push(v[j].clone());
        j = j + 1;
    }
    proof {
        if p == s.len() {
            assert(s.skip(p).len() == 0);
            assert(spec_insert(x@, s.skip(p)) =~= seq![x@]);
        } else {
            assert(s.skip(p)[0] == s[p]);
            assert(spec_insert(x@, s.skip(p)) =~= seq![x@] + s.skip(p));
        }
        assert(s.subrange(p, s.len() as int) =~= s.skip(p));
        assert(out@.map_values(|t: String| t@) =~= s.take(p) + spec_insert(x@, s.skip(p)));
    }
    out
}

/// Sorts the rendered lines into ascending lexicographic order.
pub fn sort_lines(v: &Vec<String>) -> (r: Vec<String>)
    ensures
        r@.map_values(|t: String| t@) == spec_sort(v@.map_values(|t: String| t@)),
{
    let ghost s = v@.map_values(|t: String| t@);
    let mut out: Vec<String> = Vec::new();
    let mut k: usize = v.len();
    proof {
        assert(s.skip(k as int).len() == 0);
        assert(out@.map_values(|t: String| t@) =~= spec_sort(s.skip(k as int)));
    }
    while 0 < k
        invariant
            k <= v.len(),
            s == v@.map_values(|t: String| t@),
            s.len() == v.len(),
            out@.map_values(|t: String| t@) == spec_sort(s.skip(k as int)),
        decreases k,
    {
        assert(s[k as int - 1] == v@[k as int - 1]@);
        let next = insert_sorted(v[k - 1].clone(), &out);
        proof {
            assert(s.skip(k as int - 1)[0] == s[k as int - 1]);
            assert(s.skip(k as int - 1).skip(1) =~= s.skip(k as int));
        }
        out = next;
        k = k - 1;
    }
    proof {
        assert(s.skip(0) =~= s);
    }
    out
}

} // verus!
