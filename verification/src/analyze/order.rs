//! Stable ordering by a numeric rank, and removal of repeated keys.

use vstd::prelude::*;

verus! {

/// The first index at or after `from` whose element has a rank of at least
/// `k`; the length of the sequence if there is none.
pub open spec fn first_at_least<T>(s: Seq<T>, rank: spec_fn(T) -> int, k: int, from: int) -> int
    decreases s.len() - from,
{
    if from < 0 || from >= s.len() {
        s.len() as int
    } else if rank(s[from]) >= k {
        from
    } else {
        first_at_least(s, rank, k, from + 1)
    }
}

/// `x` put into `s` before the first element whose rank is not below its own.
pub open spec fn insert_ranked<T>(s: Seq<T>, rank: spec_fn(T) -> int, x: T) -> Seq<T> {
    s.insert(first_at_least(s, rank, rank(x), 0), x)
}

/// The elements of `s` in ascending order of rank; elements of equal rank
/// keep the order they have in `s`.
pub open spec fn stable_sort_by<T>(s: Seq<T>, rank: spec_fn(T) -> int) -> Seq<T>
    decreases s.len(),
{
    if s.len() == 0 {
        s
    } else {
        insert_ranked(stable_sort_by(s.drop_first(), rank), rank, s[0])
    }
}

/// The ranks never fall from one element to the next.
pub open spec fn sorted_by<T>(s: Seq<T>, rank: spec_fn(T) -> int) -> bool {
    forall|i: int, j: int| 0 <= i <= j < s.len() ==> rank(s[i]) <= rank(s[j])
}

pub proof fn lemma_first_at_least<T>(s: Seq<T>, rank: spec_fn(T) -> int, k: int, from: int)
    requires
        0 <= from <= s.len(),
    ensures
        from <= first_at_least(s, rank, k, from) <= s.len(),
        forall|i: int| from <= i < first_at_least(s, rank, k, from) ==> rank(s[i]) < k,
        first_at_least(s, rank, k, from) < s.len() ==> rank(
            s[first_at_least(s, rank, k, from)],
        ) >= k,
    decreases s.len() - from,
{
    if from < s.len() && rank(s[from]) < k {
        lemma_first_at_least(s, rank, k, from + 1);
    }
}

/// Putting an element into a sorted sequence leaves it sorted.
pub proof fn lemma_insert_keeps_sorted<T>(s: Seq<T>, rank: spec_fn(T) -> int, x: T)
    requires
        sorted_by(s, rank),
    ensures
        sorted_by(insert_ranked(s, rank, x), rank),
        insert_ranked(s, rank, x).to_multiset() == s.to_multiset().insert(x),
        insert_ranked(s, rank, x).len() == s.len() + 1,
{
    let p = first_at_least(s, rank, rank(x), 0);
    lemma_first_at_least(s, rank, rank(x), 0);
    let r = insert_ranked(s, rank, x);
    assert forall|i: int, j: int| 0 <= i <= j < r.len() implies rank(r[i]) <= rank(r[j]) by {
        if j < p {
        } else if i > p {
            assert(r[i] == s[i - 1] && r[j] == s[j - 1]);
        } else if i == p {
            if j > p {
                assert(r[j] == s[j - 1]);
                assert(rank(s[p]) <= rank(s[j - 1]));
            }
        } else {
            // i < p <= j
            if j > p {
                assert(r[j] == s[j - 1]);
                assert(rank(s[i]) < rank(x));
            }
        }
    }
    vstd::seq_lib::to_multiset_insert(s, p, x);
}

/// The sorted sequence is sorted, and holds what the unsorted one holds.
pub proof fn lemma_sort_sorts<T>(s: Seq<T>, rank: spec_fn(T) -> int)
    ensures
        sorted_by(stable_sort_by(s, rank), rank),
        stable_sort_by(s, rank).to_multiset() == s.to_multiset(),
        stable_sort_by(s, rank).len() == s.len(),
    decreases s.len(),
{
    broadcast use vstd::seq_lib::group_to_multiset_ensures;

    if s.len() == 0 {
    } else {
        let rest = s.drop_first();
        lemma_sort_sorts(rest, rank);
        lemma_insert_keeps_sorted(stable_sort_by(rest, rank), rank, s[0]);
        assert(s =~= rest.insert(0, s[0]));
        vstd::seq_lib::to_multiset_insert(rest, 0, s[0]);
    }
}

/// Sorting commutes with a mapping that carries the ranks along.
pub proof fn lemma_sort_map<T, U>(
    s: Seq<T>,
    f: spec_fn(T) -> U,
    rank_t: spec_fn(T) -> int,
    rank_u: spec_fn(U) -> int,
)
    requires
        forall|x: T| #[trigger] rank_t(x) == rank_u(f(x)),
    ensures
        stable_sort_by(s, rank_t).map_values(f) == stable_sort_by(s.map_values(f), rank_u),
    decreases s.len(),
{
    if s.len() == 0 {
        assert(s.map_values(f) =~= Seq::<U>::empty());
        assert(stable_sort_by(s, rank_t).map_values(f) =~= Seq::<U>::empty());
    } else {
        let rest = s.drop_first();
        lemma_sort_map(rest, f, rank_t, rank_u);
        assert(s.map_values(f).drop_first() =~= rest.map_values(f));
        let a = stable_sort_by(rest, rank_t);
        lemma_insert_map(a, f, rank_t, rank_u, s[0]);
    }
}

proof fn lemma_first_map<T, U>(
    s: Seq<T>,
    f: spec_fn(T) -> U,
    rank_t: spec_fn(T) -> int,
    rank_u: spec_fn(U) -> int,
    k: int,
    from: int,
)
    requires
        forall|x: T| #[trigger] rank_t(x) == rank_u(f(x)),
    ensures
        first_at_least(s, rank_t, k, from) == first_at_least(s.map_values(f), rank_u, k, from),
    decreases s.len() - from,
{
    if 0 <= from < s.len() && rank_t(s[from]) < k {
        lemma_first_map(s, f, rank_t, rank_u, k, from + 1);
    }
}

proof fn lemma_insert_map<T, U>(
    s: Seq<T>,
    f: spec_fn(T) -> U,
    rank_t: spec_fn(T) -> int,
    rank_u: spec_fn(U) -> int,
    x: T,
)
    requires
        forall|x: T| #[trigger] rank_t(x) == rank_u(f(x)),
    ensures
        insert_ranked(s, rank_t, x).map_values(f) == insert_ranked(s.map_values(f), rank_u, f(x)),
{
    lemma_first_map(s, f, rank_t, rank_u, rank_t(x), 0);
    lemma_first_at_least(s, rank_t, rank_t(x), 0);
    assert(insert_ranked(s, rank_t, x).map_values(f) =~= insert_ranked(
        s.map_values(f),
        rank_u,
        f(x),
    ));
}

/// Whether some element of `s` has the same key as `x`.
pub open spec fn has_key<T>(s: Seq<T>, same: spec_fn(T, T) -> bool, x: T) -> bool {
    exists|j: int| 0 <= j < s.len() && same(s[j], x)
}

/// `s` without each element whose key an earlier element has.
pub open spec fn dedup_by<T>(s: Seq<T>, same: spec_fn(T, T) -> bool) -> Seq<T>
    decreases s.len(),
{
    if s.len() == 0 {
        s
    } else {
        let d = dedup_by(s.drop_last(), same);
        if has_key(d, same, s.last()) {
            d
        } else {
            d.push(s.last())
        }
    }
}

/// No two elements have the same key.
pub open spec fn distinct_by<T>(s: Seq<T>, same: spec_fn(T, T) -> bool) -> bool {
    forall|i: int, j: int| 0 <= i < j < s.len() ==> !same(s[i], s[j])
}

/// What is left has distinct keys, keeps the order of ranks, and comes from
/// the sequence.
pub proof fn lemma_dedup<T>(s: Seq<T>, same: spec_fn(T, T) -> bool, rank: spec_fn(T) -> int)
    requires
        sorted_by(s, rank),
    ensures
        distinct_by(dedup_by(s, same), same),
        sorted_by(dedup_by(s, same), rank),
        dedup_by(s, same).len() <= s.len(),
        forall|i: int| 0 <= i < dedup_by(s, same).len() ==> s.contains(#[trigger] dedup_by(s, same)[i]),
        forall|i: int| 0 <= i < s.len() && (forall|a: T| #[trigger] same(a, a)) ==> has_key(dedup_by(s, same), same, #[trigger] s[i]),
    decreases s.len(),
{
    if s.len() == 0 {
    } else {
        let init = s.drop_last();
        assert(sorted_by(init, rank)) by {
            assert forall|i: int, j: int| 0 <= i <= j < init.len() implies rank(init[i]) <= rank(
                init[j],
            ) by {
                assert(init[i] == s[i] && init[j] == s[j]);
            }
        }
        lemma_dedup(init, same, rank);
        let d = dedup_by(init, same);
        let r = dedup_by(s, same);
        assert forall|i: int| 0 <= i < r.len() implies s.contains(#[trigger] r[i]) by {
            if i < d.len() {
                assert(init.contains(d[i]));
                let k = choose|k: int| 0 <= k < init.len() && init[k] == d[i];
                assert(s[k] == d[i]);
            } else {
                assert(r[i] == s[s.len() - 1]);
            }
        }
        assert forall|i: int, j: int| 0 <= i <= j < r.len() implies rank(r[i]) <= rank(r[j]) by {
            if j < d.len() {
            } else {
                assert(s.contains(r[i]));
                let k = choose|k: int| 0 <= k < s.len() && s[k] == r[i];
                assert(rank(s[k]) <= rank(s[s.len() - 1]));
            }
        }
        assert forall|i: int| 0 <= i < s.len() && (forall|a: T| #[trigger] same(a, a)) implies has_key(
            r,
            same,
            #[trigger] s[i],
        ) by {
            if i < init.len() {
                assert(init[i] == s[i]);
                assert(has_key(d, same, init[i]));
                let j = choose|j: int| 0 <= j < d.len() && same(d[j], s[i]);
                assert(r[j] == d[j]);
            } else {
                if has_key(d, same, s.last()) {
                } else {
                    assert(r[r.len() - 1] == s.last());
                    assert(same(r[r.len() - 1], s[i]));
                }
            }
        }
    }
}

/// Removing repeated keys commutes with a mapping that carries the keys
/// along.
pub proof fn lemma_dedup_map<T, U>(
    s: Seq<T>,
    f: spec_fn(T) -> U,
    same_t: spec_fn(T, T) -> bool,
    same_u: spec_fn(U, U) -> bool,
)
    requires
        forall|x: T, y: T| #[trigger] same_t(x, y) == same_u(f(x), f(y)),
    ensures
        dedup_by(s, same_t).map_values(f) == dedup_by(s.map_values(f), same_u),
    decreases s.len(),
{
    if s.len() == 0 {
        assert(s.map_values(f) =~= Seq::<U>::empty());
        assert(dedup_by(s, same_t).map_values(f) =~= Seq::<U>::empty());
    } else {
        let init = s.drop_last();
        lemma_dedup_map(init, f, same_t, same_u);
        assert(s.map_values(f).drop_last() =~= init.map_values(f));
        let d = dedup_by(init, same_t);
        let du = dedup_by(init.map_values(f), same_u);
        assert(d.map_values(f) == du);
        assert(s.map_values(f).last() == f(s.last()));
        if has_key(d, same_t, s.last()) {
            let j = choose|j: int| 0 <= j < d.len() && same_t(d[j], s.last());
            assert(du[j] == f(d[j]));
            assert(has_key(du, same_u, f(s.last())));
        } else {
            if has_key(du, same_u, f(s.last())) {
                let j = choose|j: int| 0 <= j < du.len() && same_u(du[j], f(s.last()));
                assert(du[j] == f(d[j]));
                assert(same_t(d[j], s.last()));
            }
            assert(d.push(s.last()).map_values(f) =~= du.push(f(s.last())));
        }
    }
}

/// A value with a numeric rank to order it by.
pub trait Ranked {
    spec fn rank(&self) -> int;

    fn rank_of(&self) -> (r: usize)
        ensures
            r == self.rank(),
    ;
}

/// The rank of a value, as a function.
pub open spec fn rank_fn<T: Ranked>() -> spec_fn(T) -> int {
    |x: T| x.rank()
}

/// The elements of `v` in ascending order of rank, those of equal rank in
/// the order they had.
pub fn stable_sort<T: Ranked>(v: Vec<T>) -> (res: Vec<T>)
    ensures
        res@ == stable_sort_by(v@, rank_fn::<T>()),
{
    let ghost original = v@;
    let ghost rank = rank_fn::<T>();
    let mut v = v;
    let mut out: Vec<T> = Vec::new();
    proof {
        assert(original.subrange(v@.len() as int, original.len() as int) =~= Seq::<T>::empty());
    }
    while v.len() > 0
        invariant
            rank == rank_fn::<T>(),
            v@ == original.subrange(0, v@.len() as int),
            v@.len() <= original.len(),
            out@ == stable_sort_by(original.subrange(v@.len() as int, original.len() as int), rank),
        decreases v@.len(),
    {
        let ghost k = v@.len() as int;
        let x = v.pop().unwrap();
        let key = x.rank_of();
        let mut p: usize = 0;
        while p < out.len() && out[p].rank_of() < key
            invariant
                rank == rank_fn::<T>(),
                p <= out@.len(),
                key == rank(x),
                first_at_least(out@, rank, key as int, 0) == first_at_least(
                    out@,
                    rank,
                    key as int,
                    p as int,
                ),
            decreases out@.len() - p,
        {
            p += 1;
        }
        proof {
            let tail = original.subrange(k, original.len() as int);
            let longer = original.subrange(k - 1, original.len() as int);
            assert(longer.drop_first() =~= tail);
            assert(longer[0] == x);
            assert(v@ =~= original.subrange(0, k - 1));
        }
        out.insert(p, x);
    }
    proof {
        assert(original.subrange(0, original.len() as int) =~= original);
    }
    out
}

/// A value with a key by which repetitions are told.
pub trait Keyed {
    spec fn same_key(&self, other: &Self) -> bool;

    fn has_same_key(&self, other: &Self) -> (r: bool)
        ensures
            r == self.same_key(other),
    ;
}

/// Whether two values have the same key, as a function.
pub open spec fn same_fn<T: Keyed>() -> spec_fn(T, T) -> bool {
    |a: T, b: T| a.same_key(&b)
}

/// The elements of `v` in reverse order.
pub fn reversed<T>(v: Vec<T>) -> (res: Vec<T>)
    ensures
        res@ == v@.reverse(),
{
    let ghost original = v@;
    let mut v = v;
    let mut out: Vec<T> = Vec::new();
    while v.len() > 0
        invariant
            v@.len() + out@.len() == original.len(),
            v@ == original.subrange(0, v@.len() as int),
            forall|k: int| 0 <= k < out@.len() ==> out@[k] == original[original.len() - 1 - k],
        decreases v@.len(),
    {
        let ghost k = v@.len() as int;
        let x = v.pop().unwrap();
        out.push(x);
        proof {
            assert(v@ =~= original.subrange(0, k - 1));
        }
    }
    assert(out@ =~= original.reverse());
    out
}

/// The elements of `v` without each one whose key an earlier one has.
pub fn dedup<T: Keyed>(v: Vec<T>) -> (res: Vec<T>)
    ensures
        res@ == dedup_by(v@, same_fn::<T>()),
{
    let ghost original = v@;
    let ghost same = same_fn::<T>();
    let n = v.len();
    let mut stack = reversed(v);
    let mut out: Vec<T> = Vec::new();
    proof {
        assert(original.subrange(0, 0) =~= Seq::<T>::empty());
    }
    while stack.len() > 0
        invariant
            same == same_fn::<T>(),
            n == original.len(),
            stack@.len() <= n,
            forall|k: int| 0 <= k < stack@.len() ==> stack@[k] == original[n - 1 - k],
            out@ == dedup_by(original.subrange(0, n - stack@.len()), same),
        decreases stack@.len(),
    {
        let ghost i = n - stack@.len();
        let x = stack.pop().unwrap();
        assert(x == original[i]);
        let mut found = false;
        let mut j: usize = 0;
        while j < out.len()
            invariant
                same == same_fn::<T>(),
                j <= out@.len(),
                found == exists|k: int| 0 <= k < j && same(out@[k], x),
            decreases out@.len() - j,
        {
            if out[j].has_same_key(&x) {
                found = true;
            }
            j += 1;
        }
        proof {
            let upto = original.subrange(0, i + 1);
            assert(upto.drop_last() =~= original.subrange(0, i));
            assert(upto.last() == x);
            assert(found == has_key(out@, same, x));
        }
        if !found {
            out.push(x);
        }
    }
    proof {
        assert(original.subrange(0, n as int) =~= original);
    }
    out
}

/// The first index at or after `from` whose element `x` may stand before;
/// the length of the sequence if there is none.
pub open spec fn first_not_before<T>(s: Seq<T>, le: spec_fn(T, T) -> bool, x: T, from: int) -> int
    decreases s.len() - from,
{
    if from < 0 || from >= s.len() {
        s.len() as int
    } else if le(x, s[from]) {
        from
    } else {
        first_not_before(s, le, x, from + 1)
    }
}

/// `x` put into `s` before the first element that it may stand before.
pub open spec fn insert_ordered<T>(s: Seq<T>, le: spec_fn(T, T) -> bool, x: T) -> Seq<T> {
    s.insert(first_not_before(s, le, x, 0), x)
}

/// The elements of `s` in the order that `le` tells; elements that may
/// stand before each other keep the order they have in `s`.
pub open spec fn sort_with<T>(s: Seq<T>, le: spec_fn(T, T) -> bool) -> Seq<T>
    decreases s.len(),
{
    if s.len() == 0 {
        s
    } else {
        insert_ordered(sort_with(s.drop_first(), le), le, s[0])
    }
}

/// Each element may stand before each later one.
pub open spec fn ordered_with<T>(s: Seq<T>, le: spec_fn(T, T) -> bool) -> bool {
    forall|i: int, j: int| 0 <= i < j < s.len() ==> le(s[i], s[j])
}

/// `le` orders any two elements and is transitive.
pub open spec fn is_total_order<T>(le: spec_fn(T, T) -> bool) -> bool {
    &&& forall|a: T, b: T| #[trigger] le(a, b) || le(b, a)
    &&& forall|a: T, b: T, c: T| #[trigger] le(a, b) && #[trigger] le(b, c) ==> le(a, c)
}

proof fn lemma_first_not_before<T>(s: Seq<T>, le: spec_fn(T, T) -> bool, x: T, from: int)
    requires
        0 <= from <= s.len(),
    ensures
        from <= first_not_before(s, le, x, from) <= s.len(),
        forall|i: int| from <= i < first_not_before(s, le, x, from) ==> !le(x, #[trigger] s[i]),
        first_not_before(s, le, x, from) < s.len() ==> le(
            x,
            s[first_not_before(s, le, x, from)],
        ),
    decreases s.len() - from,
{
    if from < s.len() && !le(x, s[from]) {
        lemma_first_not_before(s, le, x, from + 1);
    }
}

/// Sorting by a total order puts the elements in that order and keeps what
/// the sequence holds.
pub proof fn lemma_sort_with<T>(s: Seq<T>, le: spec_fn(T, T) -> bool)
    requires
        is_total_order(le),
    ensures
        ordered_with(sort_with(s, le), le),
        sort_with(s, le).to_multiset() == s.to_multiset(),
        sort_with(s, le).len() == s.len(),
    decreases s.len(),
{
    if s.len() > 0 {
        let rest = s.drop_first();
        lemma_sort_with(rest, le);
        let a = sort_with(rest, le);
        let x = s[0];
        let p = first_not_before(a, le, x, 0);
        lemma_first_not_before(a, le, x, 0);
        let r = insert_ordered(a, le, x);
        assert forall|i: int, j: int| 0 <= i < j < r.len() implies le(r[i], r[j]) by {
            if j < p {
                assert(r[i] == a[i] && r[j] == a[j]);
            } else if i > p {
                assert(r[i] == a[i - 1] && r[j] == a[j - 1]);
            } else if i == p {
                assert(r[j] == a[j - 1]);
                if j - 1 > p {
                    assert(le(a[p], a[j - 1]));
                }
            } else {
                assert(r[i] == a[i]);
                assert(!le(x, a[i]));
                assert(le(a[i], x));
                if j > p {
                    assert(r[j] == a[j - 1]);
                    if j - 1 > i {
                        assert(le(a[i], a[j - 1]));
                    }
                }
            }
        }
        vstd::seq_lib::to_multiset_insert(a, p, x);
        assert(s =~= rest.insert(0, x));
        vstd::seq_lib::to_multiset_insert(rest, 0, x);
    }
}

proof fn lemma_first_not_before_map<T, U>(
    s: Seq<T>,
    f: spec_fn(T) -> U,
    le_t: spec_fn(T, T) -> bool,
    le_u: spec_fn(U, U) -> bool,
    x: T,
    from: int,
)
    requires
        forall|a: T, b: T| #[trigger] le_t(a, b) == le_u(f(a), f(b)),
    ensures
        first_not_before(s, le_t, x, from) == first_not_before(s.map_values(f), le_u, f(x), from),
    decreases s.len() - from,
{
    if 0 <= from < s.len() && !le_t(x, s[from]) {
        lemma_first_not_before_map(s, f, le_t, le_u, x, from + 1);
    }
}

/// Sorting commutes with a mapping that carries the order along.
pub proof fn lemma_sort_with_map<T, U>(
    s: Seq<T>,
    f: spec_fn(T) -> U,
    le_t: spec_fn(T, T) -> bool,
    le_u: spec_fn(U, U) -> bool,
)
    requires
        forall|a: T, b: T| #[trigger] le_t(a, b) == le_u(f(a), f(b)),
    ensures
        sort_with(s, le_t).map_values(f) == sort_with(s.map_values(f), le_u),
    decreases s.len(),
{
    if s.len() == 0 {
        assert(s.map_values(f) =~= Seq::<U>::empty());
        assert(sort_with(s, le_t).map_values(f) =~= Seq::<U>::empty());
    } else {
        let rest = s.drop_first();
        lemma_sort_with_map(rest, f, le_t, le_u);
        assert(s.map_values(f).drop_first() =~= rest.map_values(f));
        let a = sort_with(rest, le_t);
        lemma_first_not_before_map(a, f, le_t, le_u, s[0], 0);
        lemma_first_not_before(a, le_t, s[0], 0);
        assert(insert_ordered(a, le_t, s[0]).map_values(f) =~= insert_ordered(
            a.map_values(f),
            le_u,
            f(s[0]),
        ));
    }
}

/// A value with an order to sort it by.
pub trait Ordered {
    /// Whether the value may stand before the other.
    spec fn may_precede(&self, other: &Self) -> bool;

    fn precedes(&self, other: &Self) -> (r: bool)
        ensures
            r == self.may_precede(other),
    ;
}

/// The order of the values, as a function.
pub open spec fn order_fn<T: Ordered>() -> spec_fn(T, T) -> bool {
    |a: T, b: T| a.may_precede(&b)
}

/// The elements of `v` in their order, those that may stand before each
/// other in the order they had.
pub fn sort_ordered<T: Ordered>(v: Vec<T>) -> (res: Vec<T>)
    ensures
        res@ == sort_with(v@, order_fn::<T>()),
{
    let ghost original = v@;
    let ghost le = order_fn::<T>();
    let mut v = v;
    let mut out: Vec<T> = Vec::new();
    proof {
        assert(original.subrange(v@.len() as int, original.len() as int) =~= Seq::<T>::empty());
    }
    while v.len() > 0
        invariant
            le == order_fn::<T>(),
            v@ == original.subrange(0, v@.len() as int),
            v@.len() <= original.len(),
            out@ == sort_with(original.subrange(v@.len() as int, original.len() as int), le),
        decreases v@.len(),
    {
        let ghost k = v@.len() as int;
        let x = v.pop().unwrap();
        let mut p: usize = 0;
        while p < out.len() && !x.precedes(&out[p])
            invariant
                le == order_fn::<T>(),
                p <= out@.len(),
                first_not_before(out@, le, x, 0) == first_not_before(out@, le, x, p as int),
            decreases out@.len() - p,
        {
            p += 1;
        }
        proof {
            let tail = original.subrange(k, original.len() as int);
            let longer = original.subrange(k - 1, original.len() as int);
            assert(longer.drop_first() =~= tail);
            assert(longer[0] == x);
            assert(v@ =~= original.subrange(0, k - 1));
        }
        out.insert(p, x);
    }
    proof {
        assert(original.subrange(0, original.len() as int) =~= original);
    }
    out
}

} // verus!
