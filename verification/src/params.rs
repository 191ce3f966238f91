use vstd::prelude::*;
use vstd::pervasive::VecAdditionalExecFns;

use crate::canonical::view_pairs;
use crate::text::str_eq;

verus! {

// ---------------------------------------------------------------------------
// From pair sequences to maps
// ---------------------------------------------------------------------------

/// Whether some pair in `s` carries the key `k`.
pub open spec fn has_key(s: Seq<(Seq<char>, Seq<char>)>, k: Seq<char>) -> bool {
    exists|i: int| 0 <= i < s.len() && s[i].0 == k
}

/// Whether no two pairs in `s` share a key.
pub open spec fn unique_keys(s: Seq<(Seq<char>, Seq<char>)>) -> bool {
    forall|i: int, j: int| 0 <= i < j < s.len() ==> s[i].0 != s[j].0
}

/// The mapping described by a sequence of key/value pairs; a later pair
/// overrides an earlier one with the same key.
pub open spec fn map_of_pairs(s: Seq<(Seq<char>, Seq<char>)>) -> Map<Seq<char>, Seq<char>>
    decreases s.len(),
{
    if s.len() == 0 {
        Map::empty()
    } else {
        map_of_pairs(s.drop_last()).insert(s.last().0, s.last().1)
    }
}

/// A key is in the map exactly when some pair carries it.
pub proof fn lemma_map_of_pairs_contains(s: Seq<(Seq<char>, Seq<char>)>, k: Seq<char>)
    ensures
        map_of_pairs(s).contains_key(k) == has_key(s, k),
    decreases s.len(),
{
    if s.len() > 0 {
        lemma_map_of_pairs_contains(s.drop_last(), k);
        if s.last().0 == k {
            assert(s[s.len() - 1].0 == k);
        } else {
            if has_key(s.drop_last(), k) {
                let i = choose|i: int| 0 <= i < s.drop_last().len() && s.drop_last()[i].0 == k;
                assert(s[i].0 == k);
            }
            if has_key(s, k) {
                let i = choose|i: int| 0 <= i < s.len() && s[i].0 == k;
                assert(i < s.len() - 1);
                assert(s.drop_last()[i].0 == k);
            }
        }
    }
}

/// With unique keys, each pair is reflected in the map as it stands.
pub proof fn lemma_map_of_pairs_index(s: Seq<(Seq<char>, Seq<char>)>, i: int)
    requires
        unique_keys(s),
        0 <= i < s.len(),
    ensures
        map_of_pairs(s).contains_key(s[i].0),
        map_of_pairs(s)[s[i].0] == s[i].1,
    decreases s.len(),
{
    if i == s.len() - 1 {
    } else {
        assert(s[i].0 != s[s.len() - 1].0);
        assert forall|a: int, b: int|
            0 <= a < b < s.drop_last().len() implies s.drop_last()[a].0 != s.drop_last()[b].0 by {
            assert(s[a].0 != s[b].0);
        }
        lemma_map_of_pairs_index(s.drop_last(), i);
        assert(s.drop_last()[i] == s[i]);
    }
}

/// With unique keys, replacing the value at one position updates the map at
/// that pair's key.
pub proof fn lemma_map_of_pairs_update(s: Seq<(Seq<char>, Seq<char>)>, i: int, v: Seq<char>)
    requires
        unique_keys(s),
        0 <= i < s.len(),
    ensures
        map_of_pairs(s.update(i, (s[i].0, v))) == map_of_pairs(s).insert(s[i].0, v),
    decreases s.len(),
{
    let t = s.update(i, (s[i].0, v));
    if i == s.len() - 1 {
        assert(t.drop_last() =~= s.drop_last());
        assert(t.last() == (s[i].0, v));
        assert(map_of_pairs(t) =~= map_of_pairs(s).insert(s[i].0, v));
    } else {
        assert forall|a: int, b: int|
            0 <= a < b < s.drop_last().len() implies s.drop_last()[a].0 != s.drop_last()[b].0 by {
            assert(s[a].0 != s[b].0);
        }
        lemma_map_of_pairs_update(s.drop_last(), i, v);
        assert(t.drop_last() =~= s.drop_last().update(i, (s[i].0, v)));
        assert(s.drop_last()[i] == s[i]);
        assert(t.last() == s.last());
        // the updated key differs from the last key, so the inserts commute
        assert(s[i].0 != s.last().0);
        assert(map_of_pairs(t) =~= map_of_pairs(s).insert(s[i].0, v));
    }
}

/// With unique keys, a pair occurs in the sequence exactly once when the
/// map reflects it, and never otherwise: the multiset of pairs is fully
/// determined by the mapping.
pub proof fn lemma_unique_pairs_count(s: Seq<(Seq<char>, Seq<char>)>, p: (Seq<char>, Seq<char>))
    requires
        unique_keys(s),
    ensures
        s.to_multiset().count(p) == if map_of_pairs(s).contains_key(p.0) && map_of_pairs(s)[p.0]
            == p.1 {
            1nat
        } else {
            0nat
        },
    decreases s.len(),
{
    broadcast use vstd::seq_lib::group_to_multiset_ensures, vstd::multiset::group_multiset_axioms;

    if s.len() == 0 {
        assert(!s.contains(p));
    } else {
        let d = s.drop_last();
        let last = s.last();
        assert forall|a: int, b: int| 0 <= a < b < d.len() implies d[a].0 != d[b].0 by {
            assert(s[a].0 != s[b].0);
        }
        lemma_unique_pairs_count(d, p);
        lemma_map_of_pairs_contains(d, last.0);
        assert(s =~= d.push(last));
        assert(s.to_multiset() == d.to_multiset().insert(last));
        if p.0 == last.0 {
            // the last key is new to `d`
            if has_key(d, last.0) {
                let i = choose|i: int| 0 <= i < d.len() && d[i].0 == last.0;
                assert(s[i].0 == s[s.len() - 1].0);
                assert(false);
            }
            assert(d.to_multiset().count(p) == 0);
        }
    }
}

/// Two unique-keyed pair sequences that describe the same mapping hold the
/// same pairs.
pub proof fn lemma_same_map_same_multiset(
    s1: Seq<(Seq<char>, Seq<char>)>,
    s2: Seq<(Seq<char>, Seq<char>)>,
)
    requires
        unique_keys(s1),
        unique_keys(s2),
        map_of_pairs(s1) == map_of_pairs(s2),
    ensures
        s1.to_multiset() == s2.to_multiset(),
{
    assert forall|p: (Seq<char>, Seq<char>)|
        s1.to_multiset().count(p) == s2.to_multiset().count(p) by {
        lemma_unique_pairs_count(s1, p);
        lemma_unique_pairs_count(s2, p);
    }
    assert(s1.to_multiset() =~= s2.to_multiset());
}

// ---------------------------------------------------------------------------
// The parameter store
// ---------------------------------------------------------------------------

/// A set of request parameters: a mapping from keys to pre-stringified
/// values. Entries are held in insertion order and keys are unique; the
/// canonical order is always re-derived by sorting, so the held order never
/// reaches the wire.
pub struct RequestParam {
    entries: Vec<(String, String)>,
}

impl View for RequestParam {
    type V = Map<Seq<char>, Seq<char>>;

    open spec fn view(&self) -> Map<Seq<char>, Seq<char>> {
        map_of_pairs(self.pairs())
    }
}

impl RequestParam {
    /// The held pairs, as character sequences, in insertion order.
    pub closed spec fn pairs(&self) -> Seq<(Seq<char>, Seq<char>)> {
        view_pairs(self.entries@)
    }

    /// The held pairs as owned strings, in insertion order.
    pub closed spec fn raw_pairs(&self) -> Seq<(String, String)> {
        self.entries@
    }

    /// Well-formed: no two entries share a key.
    pub open spec fn wf(&self) -> bool {
        unique_keys(self.pairs())
    }

    /// An empty store.
    pub fn empty() -> (r: RequestParam)
        ensures
            r@ == Map::<Seq<char>, Seq<char>>::empty(),
            r.pairs() == Seq::<(Seq<char>, Seq<char>)>::empty(),
            r.wf(),
    {
        let r = RequestParam { entries: Vec::new() };
        proof {
            assert(r.pairs() =~= Seq::<(Seq<char>, Seq<char>)>::empty());
        }
        r
    }

    /// Builds a store from a list of pairs; a later pair overrides an
    /// earlier one with the same key.
    pub fn new(t: Vec<(String, String)>) -> (r: RequestParam)
        ensures
            r@ == map_of_pairs(view_pairs(t@)),
            r.wf(),
    {
        let mut r = RequestParam::empty();
        let n = t.len();
        let mut i: usize = 0;
        proof {
            assert(view_pairs(t@).take(0) =~= Seq::<(Seq<char>, Seq<char>)>::empty());
        }
        while i < n
            invariant
                i <= n,
                n == t@.len(),
                r.wf(),
                r@ == map_of_pairs(view_pairs(t@).take(i as int)),
            decreases n - i,
        {
            let ghost pre = view_pairs(t@).take(i as int);
            let key = t[i].0.clone();
            let val = t[i].1.clone();
            r.save(key, val);
            proof {
                let cur = view_pairs(t@).take(i + 1);
                assert(cur.drop_last() =~= pre);
                assert(cur.last() == (t@[i as int].0@, t@[i as int].1@));
            }
            i = i + 1;
        }
        proof {
            assert(view_pairs(t@).take(t@.len() as int) =~= view_pairs(t@));
        }
        r
    }

    /// Upserts one entry: a present key has its value replaced, an absent
    /// key is added.
    pub fn save(&mut self, k: String, v: String)
        requires
            old(self).wf(),
        ensures
            final(self).wf(),
            final(self)@ == old(self)@.insert(k@, v@),
    {
        let n = self.entries.len();
        let mut idx: usize = 0;
        while idx < n
            invariant
                idx <= n,
                n == self.entries@.len(),
                self == old(self),
                self.wf(),
                forall|t: int| 0 <= t < idx ==> #[trigger] self.pairs()[t].0 != k@,
            decreases n - idx,
        {
            if str_eq(self.entries[idx].0.as_str(), k.as_str()) {
                proof {
                    assert(self.pairs()[idx as int].0 == k@);
                    lemma_map_of_pairs_update(self.pairs(), idx as int, v@);
                }
                let ghost pre = self.pairs();
                self.entries.set(idx, (k, v));
                proof {
                    assert(self.pairs() =~= pre.update(idx as int, (pre[idx as int].0, v@)));
                    assert forall|a: int, b: int|
                        0 <= a < b < self.pairs().len() implies self.pairs()[a].0
                        != self.pairs()[b].0 by {
                        assert(pre[a].0 != pre[b].0);
                    }
                }
                return ;
            }
            idx = idx + 1;
        }
        let ghost pre = self.pairs();
        proof {
            lemma_map_of_pairs_contains(pre, k@);
        }
        self.entries.push((k, v));
        proof {
            assert(self.pairs() =~= pre.push((k@, v@)));
            assert(self.pairs().drop_last() =~= pre);
            assert(self.pairs().last() == (k@, v@));
            assert forall|a: int, b: int|
                0 <= a < b < self.pairs().len() implies self.pairs()[a].0 != self.pairs()[b].0 by {
                if b < self.pairs().len() - 1 {
                    assert(pre[a].0 != pre[b].0);
                } else {
                    assert(pre[a].0 != k@);
                }
            }
        }
    }

    /// Replaces the value of a present key; does nothing for an absent key.
    pub fn set(&mut self, k: String, v: String)
        requires
            old(self).wf(),
        ensures
            final(self).wf(),
            final(self)@ == if old(self)@.contains_key(k@) {
                old(self)@.insert(k@, v@)
            } else {
                old(self)@
            },
    {
        let n = self.entries.len();
        let mut idx: usize = 0;
        while idx < n
            invariant
                idx <= n,
                n == self.entries@.len(),
                self == old(self),
                self.wf(),
                forall|t: int| 0 <= t < idx ==> #[trigger] self.pairs()[t].0 != k@,
            decreases n - idx,
        {
            if str_eq(self.entries[idx].0.as_str(), k.as_str()) {
                proof {
                    assert(self.pairs()[idx as int].0 == k@);
                    lemma_map_of_pairs_contains(self.pairs(), k@);
                    lemma_map_of_pairs_update(self.pairs(), idx as int, v@);
                }
                let ghost pre = self.pairs();
                self.entries.set(idx, (k, v));
                proof {
                    assert(self.pairs() =~= pre.update(idx as int, (pre[idx as int].0, v@)));
                    assert forall|a: int, b: int|
                        0 <= a < b < self.pairs().len() implies self.pairs()[a].0
                        != self.pairs()[b].0 by {
                        assert(pre[a].0 != pre[b].0);
                    }
                }
                return ;
            }
            idx = idx + 1;
        }
        proof {
            lemma_map_of_pairs_contains(self.pairs(), k@);
        }
    }

    /// Adds one entry, overriding a present key, exactly as `save` does.
    pub fn add(&mut self, k: String, v: String)
        requires
            old(self).wf(),
        ensures
            final(self).wf(),
            final(self)@ == old(self)@.insert(k@, v@),
    {
        self.save(k, v)
    }

    /// Removes every entry.
    pub fn clear(&mut self)
        ensures
            final(self).wf(),
            final(self)@ == Map::<Seq<char>, Seq<char>>::empty(),
            final(self).pairs() == Seq::<(Seq<char>, Seq<char>)>::empty(),
    {
        self.entries.clear();
        proof {
            assert(self.pairs() =~= Seq::<(Seq<char>, Seq<char>)>::empty());
        }
    }

    /// Replaces the whole content with the given pairs; a later pair
    /// overrides an earlier one with the same key.
    pub fn replace(&mut self, args: Vec<(String, String)>)
        ensures
            final(self).wf(),
            final(self)@ == map_of_pairs(view_pairs(args@)),
    {
        let r = RequestParam::new(args);
        *self = r;
    }

    /// Hands the entries out as a plain list of pairs.
    pub fn inner(self) -> (r: Vec<(String, String)>)
        ensures
            view_pairs(r@) == self.pairs(),
            map_of_pairs(view_pairs(r@)) == self@,
    {
        self.entries
    }

    /// Borrows the entries, in insertion order.
    pub fn entries(&self) -> (r: &Vec<(String, String)>)
        ensures
            view_pairs(r@) == self.pairs(),
            r@ == self.raw_pairs(),
    {
        &self.entries
    }

    /// How many entries the store holds.
    pub fn len(&self) -> (r: usize)
        ensures
            r == self.pairs().len(),
    {
        self.entries.len()
    }

    /// Whether an entry with this key is present.
    pub fn contains_key(&self, k: &str) -> (r: bool)
        ensures
            r == self@.contains_key(k@),
    {
        let n = self.entries.len();
        let mut idx: usize = 0;
        while idx < n
            invariant
                idx <= n,
                n == self.entries@.len(),
                self.pairs() == view_pairs(self.entries@),
                forall|t: int| 0 <= t < idx ==> #[trigger] self.pairs()[t].0 != k@,
            decreases n - idx,
        {
            if str_eq(self.entries[idx].0.as_str(), k) {
                proof {
                    assert(self.pairs()[idx as int].0 == k@);
                    assert(has_key(self.pairs(), k@));
                    lemma_map_of_pairs_contains(self.pairs(), k@);
                }
                return true;
            }
            idx = idx + 1;
        }
        proof {
            assert(!has_key(self.pairs(), k@));
            lemma_map_of_pairs_contains(self.pairs(), k@);
        }
        false
    }

    /// A copy of the store with the same entries.
    pub fn duplicate(&self) -> (r: RequestParam)
        ensures
            r.pairs() == self.pairs(),
            r.raw_pairs() == self.raw_pairs(),
            r@ == self@,
            r.wf() == self.wf(),
    {
        let n = self.entries.len();
        let mut copied: Vec<(String, String)> = Vec::new();
        let mut i: usize = 0;
        while i < n
            invariant
                i <= n,
                n == self.entries@.len(),
                copied@ =~= self.entries@.take(i as int),
            decreases n - i,
        {
            let key = self.entries[i].0.clone();
            let val = self.entries[i].1.clone();
            copied.push((key, val));
            proof {
                assert(copied@ =~= self.entries@.take(i + 1));
            }
            i = i + 1;
        }
        proof {
            assert(copied@ =~= self.entries@);
        }
        let r = RequestParam { entries: copied };
        proof {
            assert(r.pairs() =~= self.pairs());
        }
        r
    }

    /// Keeps exactly the entries the predicate accepts, preserving their
    /// keys and values.
    pub fn retain<F: Fn(&String, &String) -> bool>(&mut self, f: F)
        requires
            old(self).wf(),
            forall|k: &String, v: &String| #[trigger] f.requires((k, v)),
        ensures
            final(self).wf(),
            forall|k: Seq<char>| #[trigger] final(self)@.contains_key(k) ==> old(
                self,
            )@.contains_key(k) && final(self)@[k] == old(self)@[k],
            forall|j: int|
                0 <= j < old(self).raw_pairs().len() ==> {
                    let p = #[trigger] old(self).raw_pairs()[j];
                    &&& (final(self)@.contains_key(p.0@) ==> f.ensures((&p.0, &p.1), true))
                    &&& (!final(self)@.contains_key(p.0@) ==> f.ensures((&p.0, &p.1), false))
                },
    {
        let ghost src = self.entries@;
        let ghost svs = view_pairs(src);
        let mut kept: Vec<(String, String)> = Vec::new();
        let n = self.entries.len();
        let mut idx: usize = 0;
        while idx < n
            invariant
                idx <= n,
                n == self.entries@.len(),
                self == old(self),
                src == self.entries@,
                svs == view_pairs(src),
                unique_keys(svs),
                forall|k: &String, v: &String| #[trigger] f.requires((k, v)),
                unique_keys(view_pairs(kept@)),
                forall|m: int|
                    0 <= m < kept@.len() ==> exists|t: int|
                        0 <= t < idx && #[trigger] kept@[m] == src[t],
                forall|j: int|
                    0 <= j < idx ==> {
                        let p = #[trigger] src[j];
                        &&& (has_key(view_pairs(kept@), p.0@) ==> f.ensures((&p.0, &p.1), true))
                        &&& (!has_key(view_pairs(kept@), p.0@) ==> f.ensures((&p.0, &p.1), false))
                        &&& (has_key(view_pairs(kept@), p.0@) ==> exists|m: int|
                            0 <= m < kept@.len() && #[trigger] kept@[m] == p)
                    },
            decreases n - idx,
        {
            let ghost pre_kept = kept@;
            let keep = f(&self.entries[idx].0, &self.entries[idx].1);
            if keep {
                let key = self.entries[idx].0.clone();
                let val = self.entries[idx].1.clone();
                kept.push((key, val));
                proof {
                    assert(kept@[kept@.len() - 1] == src[idx as int]);
                    assert(view_pairs(kept@) =~= view_pairs(pre_kept).push(
                        (src[idx as int].0@, src[idx as int].1@),
                    ));
                }
            }
            proof {
                let kvs = view_pairs(kept@);
                let pvs = view_pairs(pre_kept);
                // keys already kept come from earlier source entries, whose
                // keys differ from the key at idx
                assert forall|m: int| 0 <= m < pvs.len() implies pvs[m].0 != svs[idx as int].0 by {
                    let t = choose|t: int| 0 <= t < idx && pre_kept[m] == src[t];
                    assert(svs[t] == (src[t].0@, src[t].1@));
                    assert(pvs[m] == (pre_kept[m].0@, pre_kept[m].1@));
                    assert(svs[t].0 != svs[idx as int].0);
                }
                assert forall|a: int, b: int| 0 <= a < b < kvs.len() implies kvs[a].0 != kvs[b].0 by {
                    if b < pvs.len() {
                        assert(pvs[a].0 != pvs[b].0);
                    } else {
                        assert(kvs[a] == pvs[a]);
                    }
                }
                // keys already present stay present
                assert forall|k: Seq<char>| has_key(pvs, k) implies has_key(kvs, k) by {
                    let w = choose|w: int| 0 <= w < pvs.len() && pvs[w].0 == k;
                    assert(kvs[w] == pvs[w]);
                }
                assert forall|j: int| 0 <= j < idx + 1 implies {
                    let p = #[trigger] src[j];
                    &&& (has_key(kvs, p.0@) ==> f.ensures((&p.0, &p.1), true))
                    &&& (!has_key(kvs, p.0@) ==> f.ensures((&p.0, &p.1), false))
                    &&& (has_key(kvs, p.0@) ==> exists|m: int|
                        0 <= m < kept@.len() && #[trigger] kept@[m] == p)
                } by {
                    let p = src[j];
                    assert(svs[j] == (src[j].0@, src[j].1@));
                    if j < idx {
                        if has_key(kvs, p.0@) && !has_key(pvs, p.0@) {
                            let w = choose|w: int| 0 <= w < kvs.len() && kvs[w].0 == p.0@;
                            if w < pvs.len() {
                                assert(pvs[w] == kvs[w]);
                                assert(false);
                            } else {
                                assert(kvs[w].0 == svs[idx as int].0);
                                assert(svs[j].0 != svs[idx as int].0);
                                assert(false);
                            }
                        }
                        if has_key(pvs, p.0@) {
                            let m = choose|m: int| 0 <= m < pre_kept.len() && pre_kept[m] == p;
                            assert(kept@[m] == p);
                        }
                    } else {
                        if keep {
                            assert(kvs[kvs.len() - 1].0 == p.0@);
                            assert(has_key(kvs, p.0@));
                            assert(kept@[kept@.len() - 1] == p);
                        } else {
                            if has_key(kvs, p.0@) {
                                let w = choose|w: int| 0 <= w < kvs.len() && kvs[w].0 == p.0@;
                                let t = choose|t: int| 0 <= t < idx && kept@[w] == src[t];
                                assert(svs[t] == (src[t].0@, src[t].1@));
                                assert(svs[t].0 == svs[idx as int].0);
                                assert(false);
                            }
                        }
                    }
                }
            }
            idx = idx + 1;
        }
        self.entries = kept;
        proof {
            let kvs = self.pairs();
            assert forall|k: Seq<char>| #[trigger] map_of_pairs(kvs).contains_key(k) implies
                map_of_pairs(svs).contains_key(k) && map_of_pairs(kvs)[k] == map_of_pairs(svs)[k]
            by {
                lemma_map_of_pairs_contains(kvs, k);
                let w = choose|w: int| 0 <= w < kvs.len() && kvs[w].0 == k;
                let t = choose|t: int| 0 <= t < src.len() && self.entries@[w] == src[t];
                assert(svs[t] == kvs[w]);
                lemma_map_of_pairs_index(svs, t);
                lemma_map_of_pairs_index(kvs, w);
            }
            assert forall|j: int| 0 <= j < src.len() implies {
                let p = #[trigger] src[j];
                &&& (map_of_pairs(kvs).contains_key(p.0@) ==> f.ensures((&p.0, &p.1), true))
                &&& (!map_of_pairs(kvs).contains_key(p.0@) ==> f.ensures((&p.0, &p.1), false))
            } by {
                let p = src[j];
                lemma_map_of_pairs_contains(kvs, p.0@);
            }
        }
    }
}

impl Default for RequestParam {
    fn default() -> (r: RequestParam)
        ensures
            r@ == Map::<Seq<char>, Seq<char>>::empty(),
            r.wf(),
    {
        RequestParam::empty()
    }
}

} // verus!
