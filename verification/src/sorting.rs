//! Stable sorting of positions.

use vstd::prelude::*;
use crate::bytes::{after32, be_value};

verus! {

/// Whether `order` lists each of the positions below `n` once.
pub open spec fn is_permutation(order: Seq<usize>, n: nat) -> bool {
    &&& order.len() == n
    &&& forall|i: int| 0 <= i < n ==> 0 <= #[trigger] order[i] < n
    &&& forall|i: int, j: int| 0 <= i < j < n ==> order[i] != order[j]
}

/// Whether `order` lists the positions of `keys` in increasing order of their
/// key, and those of equal keys in increasing order of position. There is
/// exactly one such list.
pub open spec fn is_stable_order(keys: Seq<int>, order: Seq<usize>) -> bool {
    &&& is_permutation(order, keys.len())
    &&& forall|i: int, j: int|
        0 <= i < j < keys.len() ==> {
            let a = #[trigger] order[i];
            let b = #[trigger] order[j];
            keys[a as int] < keys[b as int] || (keys[a as int] == keys[b as int] && a < b)
        }
}

/// The one stable order of given keys.
pub open spec fn order_of(keys: Seq<int>) -> Seq<usize> {
    choose|order: Seq<usize>| is_stable_order(keys, order)
}

/// A list rearranged.
pub open spec fn rearranged<T>(values: Seq<T>, order: Seq<usize>) -> Seq<T> {
    Seq::new(order.len(), |i: int| values[order[i] as int])
}

/// Putting the next position before every position of a larger key keeps the order.
proof fn insertion_keeps_order(all: Seq<int>, before: Seq<usize>, at: int, next: usize)
    requires
        next < all.len(),
        is_stable_order(all.take(next as int), before),
        0 <= at <= next,
        forall|j: int| at <= j < next ==> all[#[trigger] before[j] as int] > all[next as int],
        at > 0 ==> all[before[at - 1] as int] <= all[next as int],
    ensures
        is_stable_order(all.take(next as int + 1), before.insert(at, next)),
{
    let after = before.insert(at, next);
    let seen = all.take(next as int + 1);
    assert forall|i: int, j: int| 0 <= i < j < seen.len() implies {
        let a = #[trigger] after[i];
        let b = #[trigger] after[j];
        a != b && (seen[a as int] < seen[b as int] || (seen[a as int] == seen[b as int] && a < b))
    } by {
        let a = after[i];
        let b = after[j];
        if i != at && j != at {
            let pi = if i < at { i } else { i - 1 };
            let pj = if j < at { j } else { j - 1 };
            assert(before[pi] == a && before[pj] == b);
        } else if j == at {
            assert(before[i] == a);
            if i < at - 1 {
                assert(before[at - 1] < next);
            }
        } else {
            assert(before[j - 1] == b);
        }
    }
    assert forall|i: int| 0 <= i < seen.len() implies 0 <= #[trigger] after[i] < seen.len() by {
        if i < at {
            assert(after[i] == before[i]);
        } else if i > at {
            assert(after[i] == before[i - 1]);
        }
    }
}

/// The positions of `keys` in increasing order of key, equal keys in order of position.
pub fn stable_order(keys: &Vec<u64>) -> (order: Vec<usize>)
    ensures
        is_stable_order(keys@.map_values(|k: u64| k as int), order@),
        order@ == order_of(keys@.map_values(|k: u64| k as int)),
{
    let ghost all = keys@.map_values(|k: u64| k as int);
    let mut order: Vec<usize> = Vec::new();
    let mut next: usize = 0;
    while next < keys.len()
        invariant
            all == keys@.map_values(|k: u64| k as int),
            next <= keys@.len(),
            is_stable_order(all.take(next as int), order@),
        decreases keys@.len() - next,
    {
        let mut at: usize = order.len();
        while at > 0 && keys[order[at - 1]] > keys[next]
            invariant
                all == keys@.map_values(|k: u64| k as int),
                next < keys@.len(),
                at <= order@.len(),
                order@.len() == next,
                is_stable_order(all.take(next as int), order@),
                forall|j: int| at <= j < next ==> all[#[trigger] order@[j] as int] > all[next as int],
            decreases at,
        {
            at = at - 1;
        }
        proof {
            insertion_keeps_order(all, order@, at as int, next);
        }
        order.insert(at, next);
        next = next + 1;
    }
    assert(all.take(next as int) =~= all);
    proof {
        stable_order_is_unique(all, order@, order_of(all));
    }
    order
}

/// The positions of `keys` in increasing lexicographic order, equal keys in order of position.
pub fn stable_digest_order(keys: &Vec<[u8; 32]>) -> (order: Vec<usize>)
    ensures
        is_stable_order(keys@.map_values(|k: [u8; 32]| be_value(k@) as int), order@),
        order@ == order_of(keys@.map_values(|k: [u8; 32]| be_value(k@) as int)),
{
    let ghost all = keys@.map_values(|k: [u8; 32]| be_value(k@) as int);
    let mut order: Vec<usize> = Vec::new();
    let mut next: usize = 0;
    while next < keys.len()
        invariant
            all == keys@.map_values(|k: [u8; 32]| be_value(k@) as int),
            next <= keys@.len(),
            is_stable_order(all.take(next as int), order@),
        decreases keys@.len() - next,
    {
        let mut at: usize = order.len();
        while at > 0 && after32(&keys[order[at - 1]], &keys[next])
            invariant
                all == keys@.map_values(|k: [u8; 32]| be_value(k@) as int),
                next < keys@.len(),
                at <= order@.len(),
                order@.len() == next,
                is_stable_order(all.take(next as int), order@),
                forall|j: int| at <= j < next ==> all[#[trigger] order@[j] as int] > all[next as int],
            decreases at,
        {
            at = at - 1;
        }
        proof {
            insertion_keeps_order(all, order@, at as int, next);
        }
        order.insert(at, next);
        next = next + 1;
    }
    assert(all.take(next as int) =~= all);
    proof {
        stable_order_is_unique(all, order@, order_of(all));
    }
    order
}

/// Every list of keys has a stable order.
pub proof fn stable_order_exists(keys: Seq<int>)
    requires
        keys.len() <= usize::MAX,
    ensures
        exists|order: Seq<usize>| is_stable_order(keys, order),
{
    let order = stable_order_witness(keys, keys.len());
    assert(keys.take(keys.len() as int) =~= keys);
}

proof fn stable_order_witness(keys: Seq<int>, count: nat) -> (order: Seq<usize>)
    requires
        keys.len() <= usize::MAX,
        count <= keys.len(),
    ensures
        is_stable_order(keys.take(count as int), order),
    decreases count,
{
    if count == 0 {
        Seq::empty()
    } else {
        let next = (count - 1) as usize;
        let before = stable_order_witness(keys, next as nat);
        let at = place(keys, before, next, next as int);
        insertion_keeps_order(keys, before, at, next);
        before.insert(at, next)
    }
}

proof fn place(keys: Seq<int>, before: Seq<usize>, next: usize, from: int) -> (at: int)
    requires
        next < keys.len(),
        is_stable_order(keys.take(next as int), before),
        0 <= from <= next,
        forall|j: int| from <= j < next ==> keys[#[trigger] before[j] as int] > keys[next as int],
    ensures
        0 <= at <= next,
        forall|j: int| at <= j < next ==> keys[#[trigger] before[j] as int] > keys[next as int],
        at > 0 ==> keys[before[at - 1] as int] <= keys[next as int],
    decreases from,
{
    if from == 0 || keys[before[from - 1] as int] <= keys[next as int] {
        from
    } else {
        place(keys, before, next, from - 1)
    }
}

/// There is only one stable order of given keys.
pub proof fn stable_order_is_unique(keys: Seq<int>, a: Seq<usize>, b: Seq<usize>)
    requires
        is_stable_order(keys, a),
        is_stable_order(keys, b),
    ensures
        a == b,
{
    assert forall|i: int| 0 <= i < keys.len() implies a[i] == b[i] by {
        same_from(keys, a, b, i);
    }
    assert(a =~= b);
}

/// Every position is listed somewhere.
pub proof fn permutation_covers(order: Seq<usize>, n: nat, position: int)
    requires
        is_permutation(order, n),
        0 <= position < n,
    ensures
        exists|i: int| 0 <= i < n && order[i] == position,
{
    let listed = order.map_values(|p: usize| p as int);
    assert(listed.no_duplicates());
    let s = listed.to_set();
    listed.unique_seq_to_set();
    let whole = vstd::set_lib::set_int_range(0, n as int);
    vstd::set_lib::lemma_int_range(0, n as int);
    assert(s.subset_of(whole)) by {
        assert forall|x: int| s.contains(x) implies whole.contains(x) by {
            let i = choose|i: int| 0 <= i < listed.len() && listed[i] == x;
            assert(order[i] == x);
        }
    }
    vstd::set_lib::lemma_subset_equality(s, whole);
    assert(s.contains(position));
    let i = choose|i: int| 0 <= i < listed.len() && listed[i] == position;
    assert(order[i] == position);
}

proof fn same_from(keys: Seq<int>, a: Seq<usize>, b: Seq<usize>, i: int)
    requires
        is_stable_order(keys, a),
        is_stable_order(keys, b),
        0 <= i < keys.len(),
    ensures
        a[i] == b[i],
    decreases i,
{
    assert forall|j: int| 0 <= j < i implies a[j] == b[j] by {
        same_from(keys, a, b, j);
    }
    permutation_covers(b, keys.len(), a[i] as int);
    let p = choose|p: int| 0 <= p < keys.len() && b[p] == a[i] as int;
    permutation_covers(a, keys.len(), b[i] as int);
    let q = choose|q: int| 0 <= q < keys.len() && a[q] == b[i] as int;
    if p < i {
        assert(a[p] == b[p]);
    }
    if q < i {
        assert(a[q] == b[q]);
    }
    if p > i && q > i {
        assert(b[i] != b[p]);
        assert(a[i] != a[q]);
    }
}

/// Keys that are already the numbers in order are left in place.
pub proof fn identity_order(keys: Seq<int>)
    requires
        keys.len() <= usize::MAX,
        forall|i: int| 0 <= i < keys.len() ==> keys[i] == i,
    ensures
        order_of(keys) == Seq::new(keys.len(), |i: int| i as usize),
{
    let order = Seq::new(keys.len(), |i: int| i as usize);
    assert(is_stable_order(keys, order));
    stable_order_is_unique(keys, order, order_of(keys));
}

/// Of keys that do not repeat, the sorted list does not depend on the order
/// in which they were listed.
pub proof fn sorted_ignores_list_order<T>(values: Seq<T>, key: spec_fn(T) -> int, shuffle: Seq<usize>)
    requires
        values.len() <= usize::MAX,
        is_permutation(shuffle, values.len()),
        forall|i: int, j: int| 0 <= i < j < values.len() ==> key(values[i]) != key(values[j]),
        exists|order: Seq<usize>| is_stable_order(rearranged(values, shuffle).map_values(key), order),
    ensures
        rearranged(rearranged(values, shuffle), order_of(rearranged(values, shuffle).map_values(key))) == rearranged(
            values,
            order_of(values.map_values(key)),
        ),
{
    let n = values.len();
    let shuffled = rearranged(values, shuffle);
    let inner = order_of(shuffled.map_values(key));
    assert(is_stable_order(shuffled.map_values(key), inner));
    let outer = Seq::new(n, |i: int| shuffle[inner[i] as int]);
    let keys = values.map_values(key);
    assert forall|i: int, j: int| 0 <= i < j < n implies {
        let a = #[trigger] outer[i];
        let b = #[trigger] outer[j];
        a != b && keys[a as int] < keys[b as int]
    } by {
        let p = inner[i] as int;
        let q = inner[j] as int;
        assert(p != q);
        assert(shuffled[p] == values[shuffle[p] as int]);
        assert(shuffled[q] == values[shuffle[q] as int]);
        if p < q {
            assert(shuffle[p] != shuffle[q]);
        } else {
            assert(shuffle[q] != shuffle[p]);
        }
        if shuffle[p] < shuffle[q] {
            assert(key(values[shuffle[p] as int]) != key(values[shuffle[q] as int]));
        } else {
            assert(key(values[shuffle[q] as int]) != key(values[shuffle[p] as int]));
        }
    }
    assert forall|i: int| 0 <= i < n implies 0 <= #[trigger] outer[i] < n by {
        assert(0 <= inner[i] < n);
    }
    assert(is_stable_order(keys, outer));
    stable_order_is_unique(keys, outer, order_of(keys));
    assert(rearranged(shuffled, inner) =~= rearranged(values, outer));
}

} // verus!
