//! A map from strings to values that keeps its keys in the order in which
//! they were first put in.

use crate::text::bytes::str_eq;
use vstd::prelude::*;

verus! {

/// The first index at or after `from` at which `p` holds the key `k`; -1 if
/// there is none.
pub open spec fn key_index<V>(p: Seq<(Seq<char>, V)>, k: Seq<char>, from: int) -> int
    decreases p.len() - from,
{
    if from < 0 || from >= p.len() {
        -1
    } else if p[from].0 == k {
        from
    } else {
        key_index(p, k, from + 1)
    }
}

/// Whether `p` holds the key `k`.
pub open spec fn has_key<V>(p: Seq<(Seq<char>, V)>, k: Seq<char>) -> bool {
    key_index(p, k, 0) >= 0
}

/// The value that `p` holds for the key `k`.
pub open spec fn lookup<V>(p: Seq<(Seq<char>, V)>, k: Seq<char>) -> Option<V> {
    if has_key(p, k) {
        Some(p[key_index(p, k, 0)].1)
    } else {
        None
    }
}

/// No key stands twice in `p`.
pub open spec fn distinct_keys<V>(p: Seq<(Seq<char>, V)>) -> bool {
    forall|i: int, j: int| 0 <= i < j < p.len() ==> p[i].0 != p[j].0
}

/// `p` with the value `v` for the key `k`: in the place of the old value
/// where `p` holds the key, at the end where not.
pub open spec fn put<V>(p: Seq<(Seq<char>, V)>, k: Seq<char>, v: V) -> Seq<(Seq<char>, V)> {
    if has_key(p, k) {
        p.update(key_index(p, k, 0), (k, v))
    } else {
        p.push((k, v))
    }
}

/// The pairs of `p` whose key is one of `keep`.
pub open spec fn kept<V>(p: Seq<(Seq<char>, V)>, keep: Seq<Seq<char>>) -> Seq<(Seq<char>, V)>
    decreases p.len(),
{
    if p.len() == 0 {
        p
    } else if keep.contains(p.last().0) {
        kept(p.drop_last(), keep).push(p.last())
    } else {
        kept(p.drop_last(), keep)
    }
}

/// The map that the pairs stand for.
pub open spec fn as_map<V>(p: Seq<(Seq<char>, V)>) -> Map<Seq<char>, V> {
    Map::new(|k: Seq<char>| has_key(p, k), |k: Seq<char>| p[key_index(p, k, 0)].1)
}

/// What `key_index` finds is the first place of the key.
pub proof fn lemma_key_index<V>(p: Seq<(Seq<char>, V)>, k: Seq<char>, from: int)
    requires
        0 <= from,
    ensures
        key_index(p, k, from) == -1 || from <= key_index(p, k, from) < p.len(),
        key_index(p, k, from) >= 0 ==> p[key_index(p, k, from)].0 == k,
        forall|i: int|
            from <= i < p.len() && (key_index(p, k, from) == -1 || i < key_index(p, k, from))
                ==> (#[trigger] p[i]).0 != k,
    decreases p.len() - from,
{
    if from < p.len() && p[from].0 != k {
        lemma_key_index(p, k, from + 1);
    }
}

/// `put` keeps the keys distinct, and changes the map as `insert` does.
pub proof fn lemma_put<V>(p: Seq<(Seq<char>, V)>, k: Seq<char>, v: V)
    requires
        distinct_keys(p),
    ensures
        distinct_keys(put(p, k, v)),
        as_map(put(p, k, v)) == as_map(p).insert(k, v),
        lookup(put(p, k, v), k) == Some(v),
        forall|other: Seq<char>| other != k ==> lookup(put(p, k, v), other) == lookup(p, other),
{
    let q = put(p, k, v);
    lemma_key_index(p, k, 0);
    assert(distinct_keys(q)) by {
        assert forall|i: int, j: int| 0 <= i < j < q.len() implies q[i].0 != q[j].0 by {
            if has_key(p, k) {
                assert(q[i].0 == p[i].0 && q[j].0 == p[j].0);
            } else {
                if j < p.len() {
                } else {
                    assert(q[i] == p[i]);
                }
            }
        }
    }
    assert forall|other: Seq<char>| lookup(q, other) == (if other == k {
        Some(v)
    } else {
        lookup(p, other)
    }) by {
        lemma_key_index(p, other, 0);
        lemma_key_index(q, other, 0);
        let a = key_index(p, other, 0);
        let b = key_index(q, other, 0);
        if has_key(p, k) {
            let at = key_index(p, k, 0);
            if other == k {
                assert(q[at].0 == k);
                if b == -1 {
                    assert(q[at].0 != other);
                }
                assert(b == at) by {
                    if b != at {
                        if b < at {
                            assert(q[b].0 == p[b].0);
                        } else {
                            assert(q[at].0 != other);
                        }
                    }
                }
            } else {
                if a >= 0 {
                    assert(q[a] == p[a]);
                    if b == -1 {
                        assert(q[a].0 != other);
                    } else if b < a {
                        assert(q[b].0 == p[b].0);
                    } else if b > a {
                        assert(q[a].0 != other);
                    }
                } else {
                    if b >= 0 {
                        assert(q[b].0 == p[b].0);
                    }
                }
            }
        } else {
            if other == k {
                assert(q[p.len() as int].0 == k);
                if b == -1 {
                    assert(q[p.len() as int].0 != other);
                } else if b < p.len() {
                    assert(q[b] == p[b]);
                }
            } else {
                if a >= 0 {
                    assert(q[a] == p[a]);
                    if b == -1 {
                        assert(q[a].0 != other);
                    } else if b < a {
                        assert(q[b] == p[b]);
                    } else if b > a {
                        assert(q[a].0 != other);
                    }
                } else {
                    if b >= 0 {
                        if b < p.len() {
                            assert(q[b] == p[b]);
                        }
                    }
                }
            }
        }
    }
    assert(as_map(q) =~= as_map(p).insert(k, v)) by {
        assert forall|other: Seq<char>| #[trigger]
            as_map(q).contains_key(other) == as_map(p).insert(k, v).contains_key(other) by {
            assert(lookup(q, other) == (if other == k {
                Some(v)
            } else {
                lookup(p, other)
            }));
        }
        assert forall|other: Seq<char>| as_map(q).contains_key(other) implies #[trigger] as_map(
            q,
        )[other] == as_map(p).insert(k, v)[other] by {
            assert(lookup(q, other) == (if other == k {
                Some(v)
            } else {
                lookup(p, other)
            }));
        }
    }
}

/// Which key is found where, with distinct keys.
pub proof fn lemma_lookup<V>(p: Seq<(Seq<char>, V)>, k: Seq<char>)
    requires
        distinct_keys(p),
    ensures
        has_key(p, k) <==> exists|i: int| 0 <= i < p.len() && (#[trigger] p[i]).0 == k,
        forall|i: int| 0 <= i < p.len() && (#[trigger] p[i]).0 == k ==> lookup(p, k) == Some(p[i].1),
{
    lemma_key_index(p, k, 0);
    let a = key_index(p, k, 0);
    if a >= 0 {
        assert(p[a].0 == k);
    }
    assert forall|i: int| 0 <= i < p.len() && (#[trigger] p[i]).0 == k implies lookup(p, k) == Some(
        p[i].1,
    ) by {
        if a != i {
            if a == -1 || i < a {
                assert(p[i].0 != k);
            } else {
                assert(p[a].0 != p[i].0);
            }
        }
    }
}

/// What is kept are the pairs whose keys are to be kept, in their order.
pub proof fn lemma_kept<V>(p: Seq<(Seq<char>, V)>, keep: Seq<Seq<char>>)
    requires
        distinct_keys(p),
    ensures
        distinct_keys(kept(p, keep)),
        kept(p, keep).len() <= p.len(),
        forall|i: int|
            0 <= i < kept(p, keep).len() ==> p.contains(#[trigger] kept(p, keep)[i])
                && keep.contains(kept(p, keep)[i].0),
        forall|i: int|
            0 <= i < p.len() && keep.contains((#[trigger] p[i]).0) ==> kept(p, keep).contains(p[i]),
    decreases p.len(),
{
    if p.len() == 0 {
    } else {
        let init = p.drop_last();
        let last = p.last();
        assert(distinct_keys(init)) by {
            assert forall|i: int, j: int| 0 <= i < j < init.len() implies init[i].0 != init[j].0 by {
                assert(init[i] == p[i] && init[j] == p[j]);
            }
        }
        lemma_kept(init, keep);
        let r0 = kept(init, keep);
        let r = kept(p, keep);
        assert forall|i: int| 0 <= i < r.len() implies p.contains(#[trigger] r[i]) && keep.contains(
            r[i].0,
        ) by {
            if i < r0.len() {
                assert(r[i] == r0[i]);
                assert(init.contains(r0[i]));
                let j = choose|j: int| 0 <= j < init.len() && init[j] == r0[i];
                assert(p[j] == r0[i]);
            } else {
                assert(r[i] == p[p.len() - 1]);
            }
        }
        assert(distinct_keys(r)) by {
            assert forall|i: int, j: int| 0 <= i < j < r.len() implies r[i].0 != r[j].0 by {
                if j < r0.len() {
                    assert(r[i] == r0[i] && r[j] == r0[j]);
                } else {
                    assert(r[i] == r0[i]);
                    assert(init.contains(r0[i]));
                    let a = choose|a: int| 0 <= a < init.len() && init[a] == r0[i];
                    assert(p[a].0 != p[p.len() - 1].0);
                }
            }
        }
        assert forall|i: int| 0 <= i < p.len() && keep.contains((#[trigger] p[i]).0) implies r.contains(
            p[i],
        ) by {
            if i < init.len() {
                assert(init[i] == p[i]);
                assert(r0.contains(init[i]));
                let j = choose|j: int| 0 <= j < r0.len() && r0[j] == init[i];
                assert(r[j] == p[i]);
            } else {
                assert(r[r.len() - 1] == p[i]);
            }
        }
    }
}

/// What is kept holds for a key to be kept the value it had, and no other
/// key.
pub proof fn lemma_kept_lookup<V>(p: Seq<(Seq<char>, V)>, keep: Seq<Seq<char>>, k: Seq<char>)
    requires
        distinct_keys(p),
    ensures
        lookup(kept(p, keep), k) == (if keep.contains(k) {
            lookup(p, k)
        } else {
            None
        }),
{
    let r = kept(p, keep);
    lemma_kept(p, keep);
    lemma_lookup(p, k);
    lemma_lookup(r, k);
    if has_key(r, k) {
        let b = choose|b: int| 0 <= b < r.len() && (#[trigger] r[b]).0 == k;
        assert(p.contains(r[b]));
        let a = choose|a: int| 0 <= a < p.len() && p[a] == r[b];
        assert(p[a].0 == k);
    } else {
        if keep.contains(k) && has_key(p, k) {
            let a = choose|a: int| 0 <= a < p.len() && (#[trigger] p[a]).0 == k;
            assert(r.contains(p[a]));
            let b = choose|b: int| 0 <= b < r.len() && r[b] == p[a];
            assert(r[b].0 == k);
        }
    }
}

/// The pairs with each value seen through `f`.
pub open spec fn map_pairs<V, W>(
    p: Seq<(Seq<char>, V)>,
    f: spec_fn(V) -> W,
) -> Seq<(Seq<char>, W)> {
    p.map_values(|e: (Seq<char>, V)| (e.0, f(e.1)))
}

/// Seeing the values through a function moves no key.
pub proof fn lemma_map_pairs<V, W>(p: Seq<(Seq<char>, V)>, f: spec_fn(V) -> W, k: Seq<char>)
    ensures
        has_key(map_pairs(p, f), k) == has_key(p, k),
        lookup(map_pairs(p, f), k) == match lookup(p, k) {
            Some(v) => Some(f(v)),
            None => None,
        },
        distinct_keys(map_pairs(p, f)) == distinct_keys(p),
        forall|v: V| #[trigger] map_pairs(put(p, k, v), f) == put(map_pairs(p, f), k, f(v)),
{
    lemma_map_key_index(p, f, k, 0);
    lemma_key_index(p, k, 0);
    let q = map_pairs(p, f);
    assert(distinct_keys(q) == distinct_keys(p)) by {
        if distinct_keys(p) {
            assert forall|i: int, j: int| 0 <= i < j < q.len() implies q[i].0 != q[j].0 by {
                assert(p[i].0 != p[j].0);
            }
        }
        if distinct_keys(q) {
            assert forall|i: int, j: int| 0 <= i < j < p.len() implies p[i].0 != p[j].0 by {
                assert(q[i].0 != q[j].0);
            }
        }
    }
    assert forall|v: V| #[trigger] map_pairs(put(p, k, v), f) == put(map_pairs(p, f), k, f(v)) by {
        assert(map_pairs(put(p, k, v), f) =~= put(map_pairs(p, f), k, f(v)));
    }
}

proof fn lemma_map_key_index<V, W>(
    p: Seq<(Seq<char>, V)>,
    f: spec_fn(V) -> W, k: Seq<char>, from: int,
)
    ensures
        key_index(map_pairs(p, f), k, from) == key_index(p, k, from),
    decreases p.len() - from,
{
    if 0 <= from < p.len() {
        assert(map_pairs(p, f)[from].0 == p[from].0);
        if p[from].0 != k {
            lemma_map_key_index(p, f, k, from + 1);
        }
    }
}

/// A map from strings to values, in the order in which the keys came.
pub struct StrMap<V> {
    entries: Vec<(String, V)>,
}

impl<V> View for StrMap<V> {
    type V = Map<Seq<char>, V>;

    open spec fn view(&self) -> Map<Seq<char>, V> {
        as_map(self.pairs())
    }
}

impl<V> StrMap<V> {
    /// The keys with their values, in the order in which the keys came.
    pub closed spec fn pairs(&self) -> Seq<(Seq<char>, V)> {
        self.entries@.map_values(|e: (String, V)| (e.0@, e.1))
    }

    /// No key stands twice.
    pub open spec fn wf(&self) -> bool {
        distinct_keys(self.pairs())
    }

    #[verifier::type_invariant]
    closed spec fn inv(&self) -> bool {
        self.wf()
    }

    /// The empty map.
    pub fn new() -> (res: Self)
        ensures
            res.pairs() == Seq::<(Seq<char>, V)>::empty(),
            res.wf(),
    {
        let res = StrMap { entries: Vec::new() };
        assert(res.pairs() =~= Seq::<(Seq<char>, V)>::empty());
        res
    }

    /// The number of keys.
    pub fn len(&self) -> (res: usize)
        ensures
            res == self.pairs().len(),
            self.wf(),
    {
        proof {
            use_type_invariant(self);
        }
        self.entries.len()
    }

    pub fn is_empty(&self) -> (res: bool)
        ensures
            res == (self.pairs().len() == 0),
            self.wf(),
    {
        proof {
            use_type_invariant(self);
        }
        self.entries.len() == 0
    }

    /// The place of the key `k`, if the map holds it.
    pub fn index_of(&self, k: &str) -> (res: Option<usize>)
        ensures
            self.wf(),
            match res {
                Some(i) => key_index(self.pairs(), k@, 0) == i && i < self.pairs().len(),
                None => !has_key(self.pairs(), k@),
            },
    {
        proof {
            use_type_invariant(self);
        }
        let mut i: usize = 0;
        while i < self.entries.len()
            invariant
                self.wf(),
                i <= self.entries@.len(),
                key_index(self.pairs(), k@, 0) == key_index(self.pairs(), k@, i as int),
            decreases self.entries@.len() - i,
        {
            if str_eq(self.entries[i].0.as_str(), k) {
                return Some(i);
            }
            i += 1;
        }
        None
    }

    /// Whether the map holds the key `k`.
    pub fn contains_key(&self, k: &str) -> (res: bool)
        ensures
            res == has_key(self.pairs(), k@),
            res == self@.contains_key(k@),
    {
        self.index_of(k).is_some()
    }

    /// The value for the key `k`, if the map holds the key.
    pub fn get(&self, k: &str) -> (res: Option<&V>)
        ensures
            self.wf(),
            match res {
                Some(v) => lookup(self.pairs(), k@) == Some(*v) && self@.contains_key(k@) && self@[k@]
                    == *v,
                None => lookup(self.pairs(), k@).is_none() && !self@.contains_key(k@),
            },
    {
        match self.index_of(k) {
            Some(i) => Some(&self.entries[i].1),
            None => None,
        }
    }

    /// The key at place `i`.
    pub fn key_at(&self, i: usize) -> (res: &String)
        requires
            i < self.pairs().len(),
        ensures
            res@ == self.pairs()[i as int].0,
    {
        &self.entries[i].0
    }

    /// The value at place `i`.
    pub fn value_at(&self, i: usize) -> (res: &V)
        requires
            i < self.pairs().len(),
        ensures
            *res == self.pairs()[i as int].1,
    {
        &self.entries[i].1
    }

    /// Puts `v` in the place of the value at place `i` and hands the old
    /// value out.
    pub fn swap_value_at(&mut self, i: usize, v: V) -> (res: V)
        requires
            i < old(self).pairs().len(),
        ensures
            res == old(self).pairs()[i as int].1,
            final(self).pairs() == old(self).pairs().update(
                i as int,
                (old(self).pairs()[i as int].0, v),
            ),
            final(self).wf(),
    {
        proof {
            use_type_invariant(&*self);
        }
        let ghost before = self.pairs();
        let mut entries: Vec<(String, V)> = Vec::new();
        core::mem::swap(&mut self.entries, &mut entries);
        let (k, old_value) = entries.remove(i);
        entries.insert(i, (k, v));
        proof {
            let after = entries@.map_values(|e: (String, V)| (e.0@, e.1));
            assert(after =~= before.update(i as int, (before[i as int].0, v)));
            assert forall|a: int, b: int| 0 <= a < b < after.len() implies after[a].0
                != after[b].0 by {
                assert(after[a].0 == before[a].0 && after[b].0 == before[b].0);
            }
        }
        self.entries = entries;
        proof {
            let after = self.pairs();
            assert(after =~= before.update(i as int, (before[i as int].0, v)));
            assert forall|a: int, b: int| 0 <= a < b < after.len() implies after[a].0
                != after[b].0 by {
                assert(after[a].0 == before[a].0 && after[b].0 == before[b].0);
            }
        }
        old_value
    }

    /// Sets the value for the key `k`.
    pub fn insert(&mut self, k: String, v: V)
        ensures
            final(self).pairs() == put(old(self).pairs(), k@, v),
            final(self)@ == old(self)@.insert(k@, v),
            final(self).wf(),
    {
        proof {
            use_type_invariant(&*self);
            lemma_put(self.pairs(), k@, v);
        }
        let ghost before = self.pairs();
        let at = self.index_of(k.as_str());
        let mut entries: Vec<(String, V)> = Vec::new();
        core::mem::swap(&mut self.entries, &mut entries);
        match at {
            Some(i) => {
                entries.remove(i);
                entries.insert(i, (k, v));
            },
            None => {
                entries.push((k, v));
            },
        }
        assert(entries@.map_values(|e: (String, V)| (e.0@, e.1)) =~= put(before, k@, v));
        self.entries = entries;
    }

    /// Drops each key that is none of `keep`.
    pub fn retain_keys(&mut self, keep: &[String])
        ensures
            final(self).pairs() == kept(
                old(self).pairs(),
                keep@.map_values(|s: String| s@),
            ),
            final(self).wf(),
    {
        proof {
            use_type_invariant(&*self);
        }
        let ghost before = self.pairs();
        let ghost wanted = keep@.map_values(|s: String| s@);
        proof {
            lemma_kept(before, wanted);
        }
        let mut old_entries: Vec<(String, V)> = Vec::new();
        core::mem::swap(&mut self.entries, &mut old_entries);
        let mut stack = crate::analyze::order::reversed(old_entries);
        let n = stack.len();
        let mut out: Vec<(String, V)> = Vec::new();
        let ghost pair = |e: (String, V)| (e.0@, e.1);
        proof {
            assert(before.take(0) =~= Seq::<(Seq<char>, V)>::empty());
            assert(out@.map_values(pair) =~= Seq::<(Seq<char>, V)>::empty());
        }
        while stack.len() > 0
            invariant
                n == before.len(),
                stack@.len() <= n,
                pair == |e: (String, V)| (e.0@, e.1),
                wanted == keep@.map_values(|s: String| s@),
                forall|j: int|
                    0 <= j < stack@.len() ==> pair(#[trigger] stack@[j]) == before[n - 1 - j],
                out@.map_values(pair) == kept(before.take(n - stack@.len()), wanted),
            decreases stack@.len(),
        {
            let ghost i = n - stack@.len();
            let e = stack.pop().unwrap();
            let mut wanted_here = false;
            let mut j: usize = 0;
            while j < keep.len()
                invariant
                    j <= keep@.len(),
                    wanted == keep@.map_values(|s: String| s@),
                    wanted_here == exists|a: int| 0 <= a < j && wanted[a] == e.0@,
                decreases keep@.len() - j,
            {
                if str_eq(keep[j].as_str(), e.0.as_str()) {
                    wanted_here = true;
                    assert(wanted[j as int] == e.0@);
                }
                j += 1;
            }
            proof {
                let t = before.take(i + 1);
                assert(t.drop_last() =~= before.take(i));
                assert(t.last() == pair(e));
                assert(wanted_here == wanted.contains(e.0@)) by {
                    if wanted.contains(e.0@) {
                        let a = choose|a: int| 0 <= a < wanted.len() && wanted[a] == e.0@;
                        assert(0 <= a < j && wanted[a] == e.0@);
                    }
                }
            }
            let ghost prev = out@;
            if wanted_here {
                out.push(e);
                assert(out@.map_values(pair) =~= prev.map_values(pair).push(pair(e)));
            }
        }
        proof {
            assert(before.take(n as int) =~= before);
        }
        self.entries = out;
        assert(self.pairs() =~= kept(before, wanted));
    }
}

} // verus!
