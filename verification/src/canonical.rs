use vstd::prelude::*;
use vstd::relations::{sorted_by, total_ordering};
use vstd::seq_lib::*;

use crate::text::{
    lemma_lex_connected, lemma_lex_lt_asym, lemma_lex_lt_trans, lex_le, lex_lt, str_eq, str_le,
    str_lt,
};

verus! {

broadcast use vstd::seq_lib::group_to_multiset_ensures, vstd::multiset::group_multiset_axioms;

// ---------------------------------------------------------------------------
// Views of key/value pair sequences
// ---------------------------------------------------------------------------

/// The character-sequence views of a sequence of owned string pairs.
pub open spec fn view_pairs(s: Seq<(String, String)>) -> Seq<(Seq<char>, Seq<char>)> {
    s.map_values(|p: (String, String)| (p.0@, p.1@))
}

// ---------------------------------------------------------------------------
// The canonical order on pairs
// ---------------------------------------------------------------------------

/// Canonical order on key/value pairs: by key and, between pairs with equal
/// keys, by value. On pair sets with unique keys this is exactly the
/// ordering by key that the protocol prescribes.
pub open spec fn pair_le(a: (Seq<char>, Seq<char>), b: (Seq<char>, Seq<char>)) -> bool {
    lex_lt(a.0, b.0) || (a.0 == b.0 && lex_le(a.1, b.1))
}

/// `pair_le` as a function value, for vstd's ordering predicates.
pub open spec fn pair_le_fn() -> spec_fn((Seq<char>, Seq<char>), (Seq<char>, Seq<char>)) -> bool {
    |a: (Seq<char>, Seq<char>), b: (Seq<char>, Seq<char>)| pair_le(a, b)
}

/// The canonical pair order is a total ordering.
pub proof fn lemma_pair_le_total_ordering()
    ensures
        total_ordering(pair_le_fn()),
{
    let r = pair_le_fn();
    assert forall|a: (Seq<char>, Seq<char>)| #[trigger] r(a, a) by {}
    assert forall|a: (Seq<char>, Seq<char>), b: (Seq<char>, Seq<char>)|
        #[trigger] r(a, b) && #[trigger] r(b, a) implies a == b by {
        if lex_lt(a.0, b.0) {
            lemma_lex_lt_asym(a.0, b.0);
        }
        if lex_lt(a.1, b.1) {
            lemma_lex_lt_asym(a.1, b.1);
        }
    }
    assert forall|a: (Seq<char>, Seq<char>), b: (Seq<char>, Seq<char>), c: (Seq<char>, Seq<char>)|
        #[trigger] r(a, b) && #[trigger] r(b, c) implies r(a, c) by {
        if lex_lt(a.0, b.0) && lex_lt(b.0, c.0) {
            lemma_lex_lt_trans(a.0, b.0, c.0);
        }
        if a.0 == b.0 && b.0 == c.0 && lex_lt(a.1, b.1) && lex_lt(b.1, c.1) {
            lemma_lex_lt_trans(a.1, b.1, c.1);
        }
    }
    assert forall|a: (Seq<char>, Seq<char>), b: (Seq<char>, Seq<char>)|
        #[trigger] r(a, b) || #[trigger] r(b, a) by {
        lemma_lex_connected(a.0, b.0);
        if a.0 == b.0 {
            lemma_lex_connected(a.1, b.1);
        }
    }
}

/// Whether `a` and `b` are ordered by the canonical pair order.
pub fn pair_le_exec(a: &(String, String), b: &(String, String)) -> (r: bool)
    ensures
        r == pair_le((a.0@, a.1@), (b.0@, b.1@)),
{
    if str_lt(a.0.as_str(), b.0.as_str()) {
        true
    } else if str_eq(a.0.as_str(), b.0.as_str()) {
        str_le(a.1.as_str(), b.1.as_str())
    } else {
        false
    }
}

// ---------------------------------------------------------------------------
// Uniqueness of the sorted arrangement
// ---------------------------------------------------------------------------

/// Two sequences that are sorted under one total ordering and hold the same
/// elements (as a multiset) are the same sequence.
pub proof fn lemma_sorted_unique<A>(s1: Seq<A>, s2: Seq<A>, leq: spec_fn(A, A) -> bool)
    requires
        total_ordering(leq),
        sorted_by(s1, leq),
        sorted_by(s2, leq),
        s1.to_multiset() == s2.to_multiset(),
    ensures
        s1 == s2,
    decreases s1.len(),
{
    assert(s1.len() == s1.to_multiset().len());
    assert(s2.len() == s2.to_multiset().len());
    if s1.len() == 0 {
        assert(s1 =~= s2);
    } else {
        let x1 = s1[0];
        let x2 = s2[0];
        assert(s1.contains(x1));
        assert(s2.contains(x2));
        assert(s2.to_multiset().count(x1) > 0);
        assert(s2.contains(x1));
        assert(s1.to_multiset().count(x2) > 0);
        assert(s1.contains(x2));
        let i1 = choose|i: int| 0 <= i < s2.len() && s2[i] == x1;
        let i2 = choose|i: int| 0 <= i < s1.len() && s1[i] == x2;
        // the first element of each sequence is a least element, so the two
        // first elements are ordered both ways, hence equal
        if i1 > 0 {
            assert(leq(s2[0], s2[i1]));
        }
        if i2 > 0 {
            assert(leq(s1[0], s1[i2]));
        }
        assert(leq(x1, x2) && leq(x2, x1));
        assert(x1 == x2);
        // drop the shared head and recurse
        let t1 = s1.drop_first();
        let t2 = s2.drop_first();
        assert(s1.remove(0) =~= t1);
        assert(s2.remove(0) =~= t2);
        assert(t1.to_multiset() == s1.to_multiset().remove(x1));
        assert(t2.to_multiset() == s2.to_multiset().remove(x2));
        assert forall|i: int, j: int| 0 <= i < j < t1.len() implies #[trigger] leq(t1[i], t1[j]) by {
            assert(leq(s1[i + 1], s1[j + 1]));
        }
        assert forall|i: int, j: int| 0 <= i < j < t2.len() implies #[trigger] leq(t2[i], t2[j]) by {
            assert(leq(s2[i + 1], s2[j + 1]));
        }
        lemma_sorted_unique(t1, t2, leq);
        assert forall|i: int| 0 <= i < s1.len() implies s1[i] == s2[i] by {
            if i > 0 {
                assert(t1[i - 1] == t2[i - 1]);
            }
        }
        assert(s1 =~= s2);
    }
}

// ---------------------------------------------------------------------------
// Sorting
// ---------------------------------------------------------------------------

/// Reads one ordered pair out of a sorted sequence.
proof fn lemma_sorted_index<A>(s: Seq<A>, leq: spec_fn(A, A) -> bool, a: int, b: int)
    requires
        sorted_by(s, leq),
        0 <= a < b < s.len(),
    ensures
        leq(s[a], s[b]),
{
}

/// A sequence whose pairs of positions are all ordered is sorted.
proof fn lemma_sorted_from_index<A>(s: Seq<A>, leq: spec_fn(A, A) -> bool)
    requires
        forall|a: int, b: int| 0 <= a < b < s.len() ==> #[trigger] leq(s[a], s[b]),
    ensures
        sorted_by(s, leq),
{
}

proof fn lemma_ord_trans<A>(leq: spec_fn(A, A) -> bool, x: A, y: A, z: A)
    requires
        total_ordering(leq),
        leq(x, y),
        leq(y, z),
    ensures
        leq(x, z),
{
}

proof fn lemma_ord_connected<A>(leq: spec_fn(A, A) -> bool, x: A, y: A)
    requires
        total_ordering(leq),
        !leq(x, y),
    ensures
        leq(y, x),
{
}

proof fn lemma_view_pairs_remove(s: Seq<(String, String)>, i: int)
    requires
        0 <= i < s.len(),
    ensures
        view_pairs(s.remove(i)) =~= view_pairs(s).remove(i),
{
}

proof fn lemma_view_pairs_insert(s: Seq<(String, String)>, i: int, p: (String, String))
    requires
        0 <= i <= s.len(),
    ensures
        view_pairs(s.insert(i, p)) =~= view_pairs(s).insert(i, (p.0@, p.1@)),
{
}

/// Sorts the pairs into the canonical order. The result holds exactly the
/// pairs that went in.
pub fn sort_pairs(v: &mut Vec<(String, String)>)
    ensures
        sorted_by(view_pairs(final(v)@), pair_le_fn()),
        view_pairs(final(v)@).to_multiset() == view_pairs(old(v)@).to_multiset(),
{
    proof {
        lemma_pair_le_total_ordering();
    }
    if v.len() <= 1 {
        return ;
    }
    let ghost orig = view_pairs(v@).to_multiset();
    let ghost leq = pair_le_fn();
    let mut i: usize = 1;
    while i < v.len()
        invariant
            1 <= i <= v@.len(),
            total_ordering(leq),
            leq == pair_le_fn(),
            view_pairs(v@).to_multiset() == orig,
            sorted_by(view_pairs(v@).take(i as int), leq),
        decreases v@.len() - i,
    {
        let ghost pre = v@;
        let ghost pvs = view_pairs(pre);
        let x = v.remove(i);
        let ghost xv = (x.0@, x.1@);
        proof {
            lemma_view_pairs_remove(pre, i as int);
            assert(view_pairs(v@) =~= pvs.remove(i as int));
            assert(view_pairs(v@).take(i as int) =~= pvs.take(i as int));
            assert(pvs[i as int] == xv);
        }
        let mut j: usize = i;
        while j > 0 && !pair_le_exec(&v[j - 1], &x)
            invariant
                j <= i,
                i < pre.len(),
                total_ordering(leq),
                leq == pair_le_fn(),
                v@ == pre.remove(i as int),
                xv == (x.0@, x.1@),
                sorted_by(view_pairs(v@).take(i as int), leq),
                forall|k: int| j <= k < i ==> !pair_le(#[trigger] view_pairs(v@)[k], xv),
            decreases j,
        {
            proof {
                assert(view_pairs(v@)[j - 1] == (v@[j - 1].0@, v@[j - 1].1@));
            }
            j = j - 1;
        }
        proof {
            lemma_view_pairs_insert(v@, j as int, x);
            let vs = view_pairs(v@);
            let ws = vs.insert(j as int, xv);
            let ji = j as int;
            let ii = i as int;
            if j > 0 {
                assert(vs[ji - 1] == (v@[ji - 1].0@, v@[ji - 1].1@));
                assert(pair_le(vs[ji - 1], xv));
            }
            assert forall|a: int, b: int| 0 <= a < b < ii implies pair_le(vs[a], vs[b]) by {
                lemma_sorted_index(vs.take(ii), leq, a, b);
                assert(leq(vs.take(ii)[a], vs.take(ii)[b]));
            }
            assert forall|a: int| 0 <= a < ji implies pair_le(vs[a], xv) by {
                if a < ji - 1 {
                    lemma_ord_trans(leq, vs[a], vs[ji - 1], xv);
                }
            }
            assert forall|b: int| ji <= b < ii implies pair_le(xv, vs[b]) by {
                lemma_ord_connected(leq, vs[b], xv);
            }
            assert forall|a: int, b: int| 0 <= a < b < ii + 1 implies #[trigger] leq(
                ws.take(ii + 1)[a],
                ws.take(ii + 1)[b],
            ) by {
                assert(ws.take(ii + 1)[a] == ws[a]);
                assert(ws.take(ii + 1)[b] == ws[b]);
                if a < ji {
                    assert(ws[a] == vs[a]);
                } else if a == ji {
                    assert(ws[a] == xv);
                } else {
                    assert(ws[a] == vs[a - 1]);
                }
                if b < ji {
                    assert(ws[b] == vs[b]);
                } else if b == ji {
                    assert(ws[b] == xv);
                } else {
                    assert(ws[b] == vs[b - 1]);
                }
                assert(pair_le(ws[a], ws[b]));
            }
            lemma_sorted_from_index(ws.take(ii + 1), leq);
            // the multiset is restored by putting the removed pair back
            assert(ws.to_multiset() == vs.to_multiset().insert(xv));
            assert(vs.to_multiset() == pvs.to_multiset().remove(xv));
            assert(pvs.to_multiset().count(xv) > 0);
            assert(ws.to_multiset() =~= pvs.to_multiset());
        }
        v.insert(j, x);
        proof {
            assert(view_pairs(v@) =~= view_pairs(pre.remove(i as int)).insert(j as int, xv));
        }
        i = i + 1;
    }
    proof {
        assert(view_pairs(v@).take(v@.len() as int) =~= view_pairs(v@));
    }
}

// ---------------------------------------------------------------------------
// Joining pairs into the canonical string
// ---------------------------------------------------------------------------

/// One pair rendered as `key=value`.
pub open spec fn pair_text(p: (Seq<char>, Seq<char>)) -> Seq<char> {
    p.0 + seq!['='] + p.1
}

/// The pairs joined as `key1=value1&key2=value2&...` with no trailing
/// separator and no escaping: exactly the text the signature is computed
/// over.
pub open spec fn join_pairs(s: Seq<(Seq<char>, Seq<char>)>) -> Seq<char>
    decreases s.len(),
{
    if s.len() == 0 {
        Seq::empty()
    } else if s.len() == 1 {
        pair_text(s[0])
    } else {
        join_pairs(s.drop_last()) + seq!['&'] + pair_text(s.last())
    }
}

/// The canonical string of a bag of pairs: sort, then join.
pub open spec fn canon_pairs(s: Seq<(Seq<char>, Seq<char>)>) -> Seq<char> {
    join_pairs(s.sort_by(pair_le_fn()))
}

/// Joins the pairs, in the order given, as `key1=value1&key2=value2&...`.
pub fn joined_string(pairs: &Vec<(String, String)>) -> (r: String)
    ensures
        r@ == join_pairs(view_pairs(pairs@)),
{
    let mut r = String::new();
    let ghost vs = view_pairs(pairs@);
    let mut i: usize = 0;
    while i < pairs.len()
        invariant
            i <= pairs@.len(),
            vs == view_pairs(pairs@),
            r@ == join_pairs(vs.take(i as int)),
        decreases pairs@.len() - i,
    {
        if i > 0 {
            r.append("&");
        }
        r.append(pairs[i].0.as_str());
        r.append("=");
        r.append(pairs[i].1.as_str());
        proof {
            reveal_strlit("&");
            reveal_strlit("=");
            assert("&"@ =~= seq!['&']);
            assert("="@ =~= seq!['=']);
            assert(vs.take(i + 1).drop_last() =~= vs.take(i as int));
            assert(vs.take(i + 1).last() == vs[i as int]);
            assert(r@ =~= join_pairs(vs.take(i + 1)));
        }
        i = i + 1;
    }
    proof {
        assert(vs.take(pairs@.len() as int) =~= vs);
    }
    r
}

/// Sorts the pairs in place and returns the canonical string over them.
pub fn canonical_string(pairs: &mut Vec<(String, String)>) -> (r: String)
    ensures
        r@ == canon_pairs(view_pairs(old(pairs)@)),
        sorted_by(view_pairs(final(pairs)@), pair_le_fn()),
        view_pairs(final(pairs)@).to_multiset() == view_pairs(old(pairs)@).to_multiset(),
        join_pairs(view_pairs(final(pairs)@)) == canon_pairs(view_pairs(old(pairs)@)),
{
    sort_pairs(pairs);
    proof {
        lemma_pair_le_total_ordering();
        view_pairs(old(pairs)@).lemma_sort_by_ensures(pair_le_fn());
        lemma_sorted_unique(
            view_pairs(pairs@),
            view_pairs(old(pairs)@).sort_by(pair_le_fn()),
            pair_le_fn(),
        );
    }
    joined_string(pairs)
}

// ---------------------------------------------------------------------------
// Determinism
// ---------------------------------------------------------------------------

/// Law (key ordering): in a canonically arranged parameter list the keys
/// ascend in byte-wise lexicographic order.
pub proof fn lemma_canonical_key_order(s: Seq<(Seq<char>, Seq<char>)>, i: int, j: int)
    requires
        sorted_by(s, pair_le_fn()),
        0 <= i < j < s.len(),
    ensures
        lex_le(s[i].0, s[j].0),
{
    assert(pair_le_fn()(s[i], s[j]));
}

/// Law: the canonical string depends only on which pairs are present, never
/// on the order in which they were gathered. Any two arrangements of the
/// same key/value pairs canonicalize to the same string.
pub proof fn lemma_canonical_deterministic(
    s1: Seq<(Seq<char>, Seq<char>)>,
    s2: Seq<(Seq<char>, Seq<char>)>,
)
    requires
        s1.to_multiset() == s2.to_multiset(),
    ensures
        canon_pairs(s1) == canon_pairs(s2),
{
    lemma_pair_le_total_ordering();
    s1.lemma_sort_by_ensures(pair_le_fn());
    s2.lemma_sort_by_ensures(pair_le_fn());
    lemma_sorted_unique(s1.sort_by(pair_le_fn()), s2.sort_by(pair_le_fn()), pair_le_fn());
}

} // verus!
