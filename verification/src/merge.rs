use vstd::prelude::*;

use crate::canonical::{canon_pairs, join_pairs, lemma_canonical_deterministic, pair_le_fn};
use crate::crypto::rsa2_sign_of;
use crate::params::{has_key, lemma_same_map_same_multiset, map_of_pairs, unique_keys};

verus! {

broadcast use vstd::seq_lib::group_filter_ensures;

// ---------------------------------------------------------------------------
// Merging base fields, override fields and per-call fields
// ---------------------------------------------------------------------------
//
// A request's parameter set is merged from three sources with a fixed
// precedence: the per-call fields (timestamp, method, biz_content) always
// win, the caller's override fields win over the client's base fields, and
// the `sign` field is reserved for the signature that is appended after
// signing. No duplicate key ever reaches the canonical string.

/// The keys that the per-call machinery owns; neither base nor override
/// fields may take them over.
pub open spec fn reserved_key(k: Seq<char>) -> bool {
    k == "timestamp"@ || k == "method"@ || k == "biz_content"@ || k == "sign"@
}

/// The per-call pairs: timestamp, method, and the optional JSON payload.
pub open spec fn extra_pairs(ts: Seq<char>, method: Seq<char>, biz: Option<Seq<char>>) -> Seq<
    (Seq<char>, Seq<char>),
> {
    let base = seq![("timestamp"@, ts), ("method"@, method)];
    if biz is Some {
        base.push(("biz_content"@, biz->0))
    } else {
        base
    }
}

/// Which base pairs survive the merge: those whose key is neither reserved
/// nor overridden.
pub open spec fn base_kept(over: Seq<(Seq<char>, Seq<char>)>) -> spec_fn(
    (Seq<char>, Seq<char>),
) -> bool {
    |p: (Seq<char>, Seq<char>)| !reserved_key(p.0) && !has_key(over, p.0)
}

/// Which override pairs survive the merge: those whose key is not reserved.
pub open spec fn over_kept() -> spec_fn((Seq<char>, Seq<char>)) -> bool {
    |p: (Seq<char>, Seq<char>)| !reserved_key(p.0)
}

/// The merged parameter set of one request, before sorting and signing.
pub open spec fn merged_pairs(
    base: Seq<(Seq<char>, Seq<char>)>,
    over: Seq<(Seq<char>, Seq<char>)>,
    ts: Seq<char>,
    method: Seq<char>,
    biz: Option<Seq<char>>,
) -> Seq<(Seq<char>, Seq<char>)> {
    extra_pairs(ts, method, biz) + base.filter(base_kept(over)) + over.filter(over_kept())
}

/// The final transmitted pairs: the merged set in canonical order, with the
/// signature over the canonical string appended as one more pair.
pub open spec fn signed_pairs(
    private_key: Seq<char>,
    merged: Seq<(Seq<char>, Seq<char>)>,
) -> Seq<(Seq<char>, Seq<char>)> {
    let sorted = merged.sort_by(pair_le_fn());
    sorted.push(("sign"@, rsa2_sign_of(private_key, join_pairs(sorted))))
}

/// The view of an optional string.
pub open spec fn option_view(o: Option<String>) -> Option<Seq<char>> {
    match o {
        Some(s) => Some(s@),
        None => None,
    }
}

// ---------------------------------------------------------------------------
// The reserved keys are four distinct texts
// ---------------------------------------------------------------------------

proof fn lemma_reserved_texts()
    ensures
        "timestamp"@.len() == 9,
        "method"@.len() == 6,
        "biz_content"@.len() == 11,
        "sign"@.len() == 4,
        reserved_key("timestamp"@),
        reserved_key("method"@),
        reserved_key("biz_content"@),
        reserved_key("sign"@),
{
    reveal_strlit("timestamp");
    reveal_strlit("method");
    reveal_strlit("biz_content");
    reveal_strlit("sign");
}

// ---------------------------------------------------------------------------
// Filtering keeps keys unique
// ---------------------------------------------------------------------------

/// Filtering a unique-keyed pair sequence keeps the keys unique, keeps only
/// keys that were present, and keeps only pairs the predicate accepts.
pub proof fn lemma_filter_unique(
    s: Seq<(Seq<char>, Seq<char>)>,
    pred: spec_fn((Seq<char>, Seq<char>)) -> bool,
)
    requires
        unique_keys(s),
    ensures
        unique_keys(s.filter(pred)),
        forall|k: Seq<char>| #[trigger] has_key(s.filter(pred), k) ==> has_key(s, k),
    decreases s.len(),
{
    reveal(Seq::filter);
    if s.len() > 0 {
        let d = s.drop_last();
        assert forall|a: int, b: int| 0 <= a < b < d.len() implies d[a].0 != d[b].0 by {
            assert(s[a].0 != s[b].0);
        }
        lemma_filter_unique(d, pred);
        let df = d.filter(pred);
        if pred(s.last()) {
            // the appended last key is not among the kept keys
            assert forall|m: int| 0 <= m < df.len() implies df[m].0 != s.last().0 by {
                assert(has_key(d.filter(pred), df[m].0));
                let i = choose|i: int| 0 <= i < d.len() && d[i].0 == df[m].0;
                assert(s[i] == d[i]);
                assert(s[i].0 != s[s.len() - 1].0);
            }
            assert forall|a: int, b: int|
                0 <= a < b < s.filter(pred).len() implies s.filter(pred)[a].0 != s.filter(
                pred,
            )[b].0 by {
                if b < df.len() {
                    assert(df[a].0 != df[b].0);
                }
            }
            assert forall|k: Seq<char>| #[trigger] has_key(s.filter(pred), k) implies has_key(
                s,
                k,
            ) by {
                let m = choose|m: int| 0 <= m < s.filter(pred).len() && s.filter(pred)[m].0 == k;
                if m < df.len() {
                    assert(has_key(d.filter(pred), k));
                    let i = choose|i: int| 0 <= i < d.len() && d[i].0 == k;
                    assert(s[i].0 == k);
                } else {
                    assert(s[s.len() - 1].0 == k);
                }
            }
        } else {
            assert forall|k: Seq<char>| #[trigger] has_key(s.filter(pred), k) implies has_key(
                s,
                k,
            ) by {
                assert(has_key(d.filter(pred), k));
                let i = choose|i: int| 0 <= i < d.len() && d[i].0 == k;
                assert(s[i].0 == k);
            }
        }
    }
}

/// Every pair a filter keeps satisfies its predicate; a restatement of
/// vstd's filter lemma for direct use on merged sequences.
proof fn lemma_filter_sat(
    s: Seq<(Seq<char>, Seq<char>)>,
    pred: spec_fn((Seq<char>, Seq<char>)) -> bool,
    i: int,
)
    requires
        0 <= i < s.filter(pred).len(),
    ensures
        pred(s.filter(pred)[i]),
{
    s.lemma_filter_pred(pred, i);
}

// ---------------------------------------------------------------------------
// The merged set has unique keys
// ---------------------------------------------------------------------------

/// No duplicate key ever reaches the merged set.
pub proof fn lemma_merged_unique(
    base: Seq<(Seq<char>, Seq<char>)>,
    over: Seq<(Seq<char>, Seq<char>)>,
    ts: Seq<char>,
    method: Seq<char>,
    biz: Option<Seq<char>>,
)
    requires
        unique_keys(base),
        unique_keys(over),
    ensures
        unique_keys(merged_pairs(base, over, ts, method, biz)),
{
    lemma_reserved_texts();
    lemma_filter_unique(base, base_kept(over));
    lemma_filter_unique(over, over_kept());
    let ext = extra_pairs(ts, method, biz);
    let bf = base.filter(base_kept(over));
    let of = over.filter(over_kept());
    let m = merged_pairs(base, over, ts, method, biz);
    assert(m == ext + bf + of);
    // every extra key is reserved; every filtered key is not
    assert(ext.len() == if biz is Some { 3int } else { 2int });
    assert forall|i: int| 0 <= i < ext.len() implies reserved_key(#[trigger] ext[i].0) by {}
    assert forall|i: int| 0 <= i < bf.len() implies !reserved_key(#[trigger] bf[i].0) && !has_key(
        over,
        bf[i].0,
    ) by {
        lemma_filter_sat(base, base_kept(over), i);
    }
    assert forall|i: int| 0 <= i < of.len() implies !reserved_key(#[trigger] of[i].0) && has_key(
        over,
        of[i].0,
    ) by {
        lemma_filter_sat(over, over_kept(), i);
        assert(has_key(of, of[i].0));
    }
    assert forall|a: int, b: int| 0 <= a < b < m.len() implies m[a].0 != m[b].0 by {
        let e = ext.len() as int;
        if b < e {
            // two distinct extra keys
        } else if a < e && b < e + bf.len() {
            assert(m[b] == bf[b - e]);
        } else if a < e {
            assert(m[b] == of[b - e - bf.len()]);
        } else if a < e + bf.len() && b < e + bf.len() {
            assert(m[a] == bf[a - e] && m[b] == bf[b - e]);
        } else if a < e + bf.len() {
            // one from the kept base fields, one from the kept overrides
            assert(m[a] == bf[a - e] && m[b] == of[b - e - bf.len()]);
            if m[a].0 == m[b].0 {
                assert(has_key(over, m[b].0));
            }
        } else {
            assert(m[a] == of[a - e - bf.len()] && m[b] == of[b - e - bf.len()]);
        }
    }
}

// ---------------------------------------------------------------------------
// Laws: precedence and suppression
// ---------------------------------------------------------------------------

/// Law (override precedence): a non-reserved override field always appears
/// in the merged set with the override's value, whatever the base fields
/// say for the same key.
pub proof fn lemma_override_precedence(
    base: Seq<(Seq<char>, Seq<char>)>,
    over: Seq<(Seq<char>, Seq<char>)>,
    ts: Seq<char>,
    method: Seq<char>,
    biz: Option<Seq<char>>,
    i: int,
)
    requires
        unique_keys(base),
        unique_keys(over),
        0 <= i < over.len(),
        !reserved_key(over[i].0),
    ensures
        map_of_pairs(merged_pairs(base, over, ts, method, biz)).contains_key(over[i].0),
        map_of_pairs(merged_pairs(base, over, ts, method, biz))[over[i].0] == over[i].1,
{
    lemma_merged_unique(base, over, ts, method, biz);
    let m = merged_pairs(base, over, ts, method, biz);
    let of = over.filter(over_kept());
    over.lemma_filter_contains(over_kept(), i);
    assert(of.contains(over[i]));
    let w = choose|w: int| 0 <= w < of.len() && of[w] == over[i];
    let pos = extra_pairs(ts, method, biz).len() + base.filter(base_kept(over)).len() + w;
    assert(m[pos as int] == over[i]);
    crate::params::lemma_map_of_pairs_index(m, pos as int);
    crate::params::lemma_map_of_pairs_contains(m, over[i].0);
    assert(has_key(m, over[i].0));
}

/// Law (per-call fields win): the merged set always carries the per-call
/// method and timestamp, even when an override tries to set them.
pub proof fn lemma_extra_precedence(
    base: Seq<(Seq<char>, Seq<char>)>,
    over: Seq<(Seq<char>, Seq<char>)>,
    ts: Seq<char>,
    method: Seq<char>,
    biz: Option<Seq<char>>,
)
    requires
        unique_keys(base),
        unique_keys(over),
    ensures
        map_of_pairs(merged_pairs(base, over, ts, method, biz))["method"@] == method,
        map_of_pairs(merged_pairs(base, over, ts, method, biz))["timestamp"@] == ts,
        biz matches Some(b) ==> map_of_pairs(merged_pairs(base, over, ts, method, biz))[
            "biz_content"@] == b,
{
    lemma_merged_unique(base, over, ts, method, biz);
    let m = merged_pairs(base, over, ts, method, biz);
    assert(m[0] == ("timestamp"@, ts));
    assert(m[1] == ("method"@, method));
    crate::params::lemma_map_of_pairs_index(m, 0);
    crate::params::lemma_map_of_pairs_index(m, 1);
    if biz is Some {
        assert(m[2] == ("biz_content"@, biz->0));
        crate::params::lemma_map_of_pairs_index(m, 2);
    }
}

/// Law (determinism): two parameter stores that describe the same mapping
/// canonicalize to the same string, however their entries are arranged —
/// the canonical string is a function of the mapping alone.
pub proof fn lemma_canonical_of_map(
    s1: Seq<(Seq<char>, Seq<char>)>,
    s2: Seq<(Seq<char>, Seq<char>)>,
)
    requires
        unique_keys(s1),
        unique_keys(s2),
        map_of_pairs(s1) == map_of_pairs(s2),
    ensures
        canon_pairs(s1) == canon_pairs(s2),
{
    lemma_same_map_same_multiset(s1, s2);
    lemma_canonical_deterministic(s1, s2);
}

/// Law (null suppression): when there is no payload, no `biz_content`
/// field reaches the merged set at all — not from the base fields, not
/// from the overrides.
pub proof fn lemma_biz_content_omitted(
    base: Seq<(Seq<char>, Seq<char>)>,
    over: Seq<(Seq<char>, Seq<char>)>,
    ts: Seq<char>,
    method: Seq<char>,
)
    ensures
        !has_key(merged_pairs(base, over, ts, method, None), "biz_content"@),
        !map_of_pairs(merged_pairs(base, over, ts, method, None)).contains_key("biz_content"@),
{
    lemma_reserved_texts();
    let m = merged_pairs(base, over, ts, method, None);
    let ext = extra_pairs(ts, method, None);
    let bf = base.filter(base_kept(over));
    let of = over.filter(over_kept());
    assert forall|i: int| 0 <= i < m.len() implies m[i].0 != "biz_content"@ by {
        if i < 2 {
            assert(m[i] == ext[i]);
        } else if i < 2 + bf.len() {
            assert(m[i] == bf[i - 2]);
            lemma_filter_sat(base, base_kept(over), i - 2);
        } else {
            assert(m[i] == of[i - 2 - bf.len()]);
            lemma_filter_sat(over, over_kept(), i - 2 - bf.len());
        }
    }
    crate::params::lemma_map_of_pairs_contains(m, "biz_content"@);
}

} // verus!
