//! Stable sorting of positions by their keys.
use vstd::prelude::*;

verus! {

/// Whether `rel` compares any two keys, and does so consistently.
pub open spec fn compares<K>(rel: spec_fn(K, K) -> bool) -> bool {
    &&& forall|a: K, b: K| #[trigger] rel(a, b) || rel(b, a)
    &&& forall|a: K, b: K, c: K| #[trigger] rel(a, b) && #[trigger] rel(b, c) ==> rel(a, c)
}

/// Whether position `a` comes before position `b`: by the keys, and among equals by position.
pub open spec fn comes_before<K>(
    keys: Seq<K>,
    rel: spec_fn(K, K) -> bool,
    a: usize,
    b: usize,
) -> bool {
    rel(keys[a as int], keys[b as int]) && (rel(keys[b as int], keys[a as int]) ==> a < b)
}

/// Whether the positions stand in their order.
pub open spec fn in_order<K>(o: Seq<usize>, keys: Seq<K>, rel: spec_fn(K, K) -> bool) -> bool {
    forall|i: int, j: int| 0 <= i < j < o.len() ==> #[trigger] comes_before(keys, rel, o[i], o[j])
}

/// Whether every listed position lies in the range.
pub open spec fn all_within(o: Seq<usize>, lo: int, hi: int) -> bool {
    forall|i: int| 0 <= i < o.len() ==> lo <= #[trigger] o[i] < hi
}

/// The stable sorting order of the keys: every position once, each before the next.
pub open spec fn is_order_of<K>(o: Seq<usize>, keys: Seq<K>, rel: spec_fn(K, K) -> bool) -> bool {
    &&& o.len() == keys.len()
    &&& all_within(o, 0, keys.len() as int)
    &&& in_order(o, keys, rel)
}

proof fn lemma_before_transitive<K>(
    keys: Seq<K>,
    rel: spec_fn(K, K) -> bool,
    a: usize,
    b: usize,
    c: usize,
)
    requires
        compares(rel),
        comes_before(keys, rel, a, b),
        comes_before(keys, rel, b, c),
    ensures
        comes_before(keys, rel, a, c),
{
    let (x, y, z) = (keys[a as int], keys[b as int], keys[c as int]);
    assert(rel(x, y) && rel(y, z));
    if rel(z, x) {
        assert(rel(z, y));
        assert(rel(y, x));
    }
}

fn merge<K, F: Fn(&K, &K) -> bool>(
    left: Vec<usize>,
    right: Vec<usize>,
    keys: &Vec<K>,
    le: &F,
    rel: Ghost<spec_fn(K, K) -> bool>,
    lo: Ghost<int>,
    mid: Ghost<int>,
    hi: Ghost<int>,
) -> (r: Vec<usize>)
    requires
        compares(rel@),
        forall|a: K, b: K| #[trigger] call_requires(*le, (&a, &b)),
        forall|a: K, b: K, v: bool| #[trigger]
            call_ensures(*le, (&a, &b), v) ==> v == rel@(a, b),
        0 <= lo@ <= mid@ <= hi@ <= keys@.len(),
        left@.len() == mid@ - lo@,
        right@.len() == hi@ - mid@,
        all_within(left@, lo@, mid@),
        all_within(right@, mid@, hi@),
        in_order(left@, keys@, rel@),
        in_order(right@, keys@, rel@),
    ensures
        r@.len() == hi@ - lo@,
        all_within(r@, lo@, hi@),
        in_order(r@, keys@, rel@),
{
    let mut out: Vec<usize> = Vec::new();
    let mut i: usize = 0;
    let mut j: usize = 0;
    while i < left.len() || j < right.len()
        invariant
            compares(rel@),
            forall|a: K, b: K| #[trigger] call_requires(*le, (&a, &b)),
            forall|a: K, b: K, v: bool| #[trigger]
                call_ensures(*le, (&a, &b), v) ==> v == rel@(a, b),
            0 <= lo@ <= mid@ <= hi@ <= keys@.len(),
            left@.len() == mid@ - lo@,
            right@.len() == hi@ - mid@,
            all_within(left@, lo@, mid@),
            all_within(right@, mid@, hi@),
            in_order(left@, keys@, rel@),
            in_order(right@, keys@, rel@),
            i <= left@.len(),
            j <= right@.len(),
            out@.len() == i + j,
            all_within(out@, lo@, hi@),
            in_order(out@, keys@, rel@),
            forall|p: int, q: int|
                0 <= p < out@.len() && i <= q < left@.len() ==> #[trigger] comes_before(
                    keys@,
                    rel@,
                    out@[p],
                    left@[q],
                ),
            forall|p: int, q: int|
                0 <= p < out@.len() && j <= q < right@.len() ==> #[trigger] comes_before(
                    keys@,
                    rel@,
                    out@[p],
                    right@[q],
                ),
        decreases left@.len() - i + right@.len() - j,
    {
        let take_left: bool = if i >= left.len() {
            false
        } else if j >= right.len() {
            true
        } else {
            le(&keys[left[i]], &keys[right[j]])
        };
        let ghost before = out@;
        if take_left {
            let x: usize = left[i];
            proof {
                if j < right@.len() {
                    assert(comes_before(keys@, rel@, x, right@[j as int]));
                    assert forall|q: int| j <= q < right@.len() implies #[trigger] comes_before(
                        keys@,
                        rel@,
                        x,
                        right@[q],
                    ) by {
                        if q > j {
                            assert(comes_before(keys@, rel@, right@[j as int], right@[q]));
                            lemma_before_transitive(keys@, rel@, x, right@[j as int], right@[q]);
                        }
                    }
                }
            }
            out.push(x);
            i = i + 1;
        } else {
            let x: usize = right[j];
            proof {
                if i < left@.len() {
                    assert(comes_before(keys@, rel@, x, left@[i as int]));
                    assert forall|q: int| i <= q < left@.len() implies #[trigger] comes_before(
                        keys@,
                        rel@,
                        x,
                        left@[q],
                    ) by {
                        if q > i {
                            assert(comes_before(keys@, rel@, left@[i as int], left@[q]));
                            lemma_before_transitive(keys@, rel@, x, left@[i as int], left@[q]);
                        }
                    }
                }
            }
            out.push(x);
            j = j + 1;
        }
        assert(in_order(out@, keys@, rel@)) by {
            assert forall|a: int, b: int| 0 <= a < b < out@.len() implies #[trigger] comes_before(
                keys@,
                rel@,
                out@[a],
                out@[b],
            ) by {
                if b < before.len() {
                    assert(comes_before(keys@, rel@, before[a], before[b]));
                }
            }
        }
    }
    out
}

fn order_range<K, F: Fn(&K, &K) -> bool>(
    keys: &Vec<K>,
    le: &F,
    rel: Ghost<spec_fn(K, K) -> bool>,
    lo: usize,
    hi: usize,
) -> (r: Vec<usize>)
    requires
        compares(rel@),
        forall|a: K, b: K| #[trigger] call_requires(*le, (&a, &b)),
        forall|a: K, b: K, v: bool| #[trigger]
            call_ensures(*le, (&a, &b), v) ==> v == rel@(a, b),
        lo <= hi <= keys@.len(),
    ensures
        r@.len() == hi - lo,
        all_within(r@, lo as int, hi as int),
        in_order(r@, keys@, rel@),
    decreases hi - lo,
{
    let mut out: Vec<usize> = Vec::new();
    if hi - lo == 0 {
        return out;
    }
    if hi - lo == 1 {
        out.push(lo);
        return out;
    }
    let mid: usize = lo + (hi - lo) / 2;
    let left = order_range(keys, le, rel, lo, mid);
    let right = order_range(keys, le, rel, mid, hi);
    merge(
        left,
        right,
        keys,
        le,
        rel,
        Ghost(lo as int),
        Ghost(mid as int),
        Ghost(hi as int),
    )
}

/// The stable sorting order of the keys under the comparison `le`.
pub(crate) fn stable_order<K, F: Fn(&K, &K) -> bool>(
    keys: &Vec<K>,
    le: F,
    rel: Ghost<spec_fn(K, K) -> bool>,
) -> (r: Vec<usize>)
    requires
        compares(rel@),
        forall|a: K, b: K| #[trigger] call_requires(le, (&a, &b)),
        forall|a: K, b: K, v: bool| #[trigger]
            call_ensures(le, (&a, &b), v) ==> v == rel@(a, b),
    ensures
        is_order_of(r@, keys@, rel@),
        r@ == order_of(keys@, rel@),
{
    let n: usize = keys.len();
    let order = order_range(keys, &le, rel, 0, n);
    proof {
        assert(is_order_of(order@, keys@, rel@));
        orders_are_unique(order@, order_of(keys@, rel@), keys@, rel@);
    }
    order
}

/// The stable sorting order of the keys.
pub open spec fn order_of<K>(keys: Seq<K>, rel: spec_fn(K, K) -> bool) -> Seq<usize> {
    choose|o: Seq<usize>| is_order_of(o, keys, rel)
}

/// The items, listed in the given order.
pub open spec fn listed<T>(items: Seq<T>, order: Seq<usize>) -> Seq<T> {
    Seq::new(order.len(), |i: int| items[order[i] as int])
}

proof fn lemma_same_until<K>(
    a: Seq<usize>,
    b: Seq<usize>,
    keys: Seq<K>,
    rel: spec_fn(K, K) -> bool,
    n: int,
)
    requires
        compares(rel),
        is_order_of(a, keys, rel),
        is_order_of(b, keys, rel),
        0 <= n <= a.len(),
    ensures
        forall|i: int| 0 <= i < n ==> a[i] == b[i],
    decreases n,
{
    if n > 0 {
        lemma_same_until(a, b, keys, rel, n - 1);
        let i = n - 1;
        let x = a[i];
        let y = b[i];
        if x != y {
            order_lists_each_position_once(b, keys, rel, x);
            order_lists_each_position_once(a, keys, rel, y);
            let k = choose|k: int| 0 <= k < b.len() && b[k] == x;
            let m = choose|m: int| 0 <= m < a.len() && a[m] == y;
            assert(k > i) by {
                if k < i {
                    assert(a[k] == b[k]);
                    assert(comes_before(keys, rel, a[k], a[i]));
                    assert(rel(keys[x as int], keys[x as int]));
                }
            }
            assert(m > i) by {
                if m < i {
                    assert(a[m] == b[m]);
                    assert(comes_before(keys, rel, b[m], b[i]));
                    assert(rel(keys[y as int], keys[y as int]));
                }
            }
            assert(comes_before(keys, rel, b[i], b[k]));
            assert(comes_before(keys, rel, a[i], a[m]));
        }
    }
}

proof fn lemma_insert_in_order<K>(
    keys: Seq<K>,
    rel: spec_fn(K, K) -> bool,
    o: Seq<usize>,
    x: usize,
    p: int,
) -> (r: Seq<usize>)
    requires
        compares(rel),
        in_order(o, keys, rel),
        0 <= p <= o.len(),
        x < keys.len(),
        all_within(o, 0, x as int),
        forall|i: int| p <= i < o.len() ==> comes_before(keys, rel, x, #[trigger] o[i]),
    ensures
        r.len() == o.len() + 1,
        all_within(r, 0, x + 1),
        in_order(r, keys, rel),
    decreases p,
{
    if p == 0 {
        let r = seq![x] + o;
        assert forall|i: int, j: int| 0 <= i < j < r.len() implies #[trigger] comes_before(
            keys,
            rel,
            r[i],
            r[j],
        ) by {
            if i > 0 {
                assert(comes_before(keys, rel, o[i - 1], o[j - 1]));
            } else {
                assert(comes_before(keys, rel, x, o[j - 1]));
            }
        }
        assert forall|i: int| 0 <= i < r.len() implies 0 <= #[trigger] r[i] < x + 1 by {
            if i > 0 {
                assert(o[i - 1] < x);
            }
        }
        r
    } else if comes_before(keys, rel, x, o[p - 1]) {
        lemma_insert_in_order(keys, rel, o, x, p - 1)
    } else {
        let r = o.take(p) + seq![x] + o.skip(p);
        assert(o[p - 1] < x);
        assert(comes_before(keys, rel, o[p - 1], x)) by {
            assert(rel(keys[x as int], keys[o[p - 1] as int]) || rel(
                keys[o[p - 1] as int],
                keys[x as int],
            ));
        }
        assert forall|i: int, j: int| 0 <= i < j < r.len() implies #[trigger] comes_before(
            keys,
            rel,
            r[i],
            r[j],
        ) by {
            if j < p {
                assert(comes_before(keys, rel, o[i], o[j]));
            } else if j == p {
                if i < p - 1 {
                    assert(comes_before(keys, rel, o[i], o[p - 1]));
                    lemma_before_transitive(keys, rel, o[i], o[p - 1], x);
                }
            } else if i < p {
                assert(comes_before(keys, rel, o[i], o[j - 1]));
            } else if i == p {
                assert(comes_before(keys, rel, x, o[j - 1]));
            } else {
                assert(comes_before(keys, rel, o[i - 1], o[j - 1]));
            }
        }
        assert forall|i: int| 0 <= i < r.len() implies 0 <= #[trigger] r[i] < x + 1 by {
            if i < p {
                assert(o[i] < x);
            } else if i > p {
                assert(o[i - 1] < x);
            }
        }
        r
    }
}

proof fn lemma_order_of_first<K>(keys: Seq<K>, rel: spec_fn(K, K) -> bool, n: int) -> (r: Seq<
    usize,
>)
    requires
        compares(rel),
        0 <= n <= keys.len() <= usize::MAX,
    ensures
        r.len() == n,
        all_within(r, 0, n),
        in_order(r, keys, rel),
    decreases n,
{
    if n == 0 {
        Seq::empty()
    } else {
        let o = lemma_order_of_first(keys, rel, n - 1);
        lemma_insert_in_order(keys, rel, o, (n - 1) as usize, o.len() as int)
    }
}

/// Keys that can be numbered have a stable sorting order.
pub proof fn an_order_exists<K>(keys: Seq<K>, rel: spec_fn(K, K) -> bool)
    requires
        compares(rel),
        keys.len() <= usize::MAX,
    ensures
        is_order_of(order_of(keys, rel), keys, rel),
{
    let o = lemma_order_of_first(keys, rel, keys.len() as int);
    assert(is_order_of(o, keys, rel));
}

/// Keys have only one stable sorting order.
pub proof fn orders_are_unique<K>(
    a: Seq<usize>,
    b: Seq<usize>,
    keys: Seq<K>,
    rel: spec_fn(K, K) -> bool,
)
    requires
        compares(rel),
        is_order_of(a, keys, rel),
        is_order_of(b, keys, rel),
    ensures
        a == b,
{
    lemma_same_until(a, b, keys, rel, a.len() as int);
    assert(a =~= b);
}

proof fn lemma_order_no_duplicates<K>(
    o: Seq<usize>,
    keys: Seq<K>,
    rel: spec_fn(K, K) -> bool,
)
    requires
        compares(rel),
        is_order_of(o, keys, rel),
    ensures
        o.no_duplicates(),
{
    assert forall|i: int, j: int|
        0 <= i < o.len() && 0 <= j < o.len() && i != j implies o[i] != o[j] by {
        if i < j {
            assert(comes_before(keys, rel, o[i], o[j]));
            assert(rel(keys[o[i] as int], keys[o[i] as int]));
        } else {
            assert(comes_before(keys, rel, o[j], o[i]));
            assert(rel(keys[o[j] as int], keys[o[j] as int]));
        }
    }
}

/// A sorting order lists every position exactly once.
pub proof fn order_lists_each_position_once<K>(
    o: Seq<usize>,
    keys: Seq<K>,
    rel: spec_fn(K, K) -> bool,
    p: usize,
)
    requires
        compares(rel),
        is_order_of(o, keys, rel),
        p < keys.len(),
    ensures
        o.no_duplicates(),
        o.contains(p),
{
    lemma_order_no_duplicates(o, keys, rel);
    let n = keys.len();
    let all = Set::<int>::new(|i: int| 0 <= i < n);
    let ints = o.map_values(|v: usize| v as int);
    assert(ints.no_duplicates());
    ints.unique_seq_to_set();
    vstd::set_lib::lemma_int_range(0, n as int);
    assert(all =~= vstd::set_lib::set_int_range(0, n as int));
    assert(ints.to_set().subset_of(all)) by {
        assert forall|x: int| ints.to_set().contains(x) implies all.contains(x) by {
            let i = choose|i: int| 0 <= i < ints.len() && ints[i] == x;
            assert(ints[i] == o[i] as int);
        }
    }
    vstd::set_lib::lemma_subset_equality(ints.to_set(), all);
    assert(all.contains(p as int));
    let i = choose|i: int| 0 <= i < ints.len() && ints[i] == p as int;
    assert(o[i] == p);
}

} // verus!
