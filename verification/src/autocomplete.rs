//! Ordering of character IDs for autocompletion.
//!
//! The similarity of an ID to what the user typed is a number in `[0, 1]`
//! that the caller computes in floating point; here it is taken as the bit
//! pattern of that non-negative `f64`, which orders the same way.
use vstd::prelude::*;

verus! {

/// Position `a` comes before position `b`: a smaller key, or an equal key
/// and an earlier position (a stable sort keeps equal keys in order).
pub open spec fn key_before(keys: Seq<u64>, a: int, b: int) -> bool {
    keys[a] < keys[b] || (keys[a] == keys[b] && a < b)
}

/// Position `k` occurs in `order`.
pub open spec fn lists(order: Seq<usize>, k: int) -> bool {
    exists|i: int| 0 <= i < order.len() && #[trigger] order[i] == k
}

/// `order` lists every position of `keys` once, sorted by key and, for
/// equal keys, by position.
pub open spec fn is_stable_order(keys: Seq<u64>, order: Seq<usize>) -> bool {
    &&& order.len() == keys.len()
    &&& forall|i: int| 0 <= i < order.len() ==> #[trigger] order[i] < keys.len()
    &&& forall|i: int, j: int|
        0 <= i < j < order.len() ==> key_before(keys, #[trigger] order[i] as int, #[trigger] order[j] as int)
    &&& forall|k: int| 0 <= k < keys.len() ==> #[trigger] lists(order, k)
}

/// The positions `0..keys.len()` in stable ascending order of their keys.
pub fn stable_order(keys: &Vec<u64>) -> (order: Vec<usize>)
    ensures
        is_stable_order(keys@, order@),
{
    let n = keys.len();
    let mut order: Vec<usize> = Vec::new();
    for i in 0..n
        invariant
            n == keys@.len(),
            order@.len() == i,
            forall|a: int| 0 <= a < order@.len() ==> #[trigger] order@[a] < i,
            forall|a: int, b: int|
                0 <= a < b < order@.len() ==> key_before(
                    keys@,
                    #[trigger] order@[a] as int,
                    #[trigger] order@[b] as int,
                ),
            forall|k: int| 0 <= k < i ==> #[trigger] lists(order@, k),
    {
        let mut pos: usize = 0;
        while pos < order.len() && keys[order[pos]] <= keys[i]
            invariant
                n == keys@.len(),
                i < n,
                order@.len() == i,
                pos <= order@.len(),
                forall|a: int| 0 <= a < order@.len() ==> #[trigger] order@[a] < i,
                forall|a: int| 0 <= a < pos ==> keys@[#[trigger] order@[a] as int] <= keys@[i as int],
            decreases order@.len() - pos,
        {
            pos = pos + 1;
        }
        let ghost old_order = order@;
        proof {
            if pos < old_order.len() {
                assert forall|b: int| pos <= b < old_order.len() implies keys@[#[trigger] old_order[b] as int]
                    > keys@[i as int] by {
                    if b > pos {
                        assert(key_before(keys@, old_order[pos as int] as int, old_order[b] as int));
                    }
                }
            }
        }
        order.insert(pos, i);
        proof {
            let s = order@;
            assert(s == old_order.insert(pos as int, i));
            assert forall|a: int, b: int| 0 <= a < b < s.len() implies key_before(
                keys@,
                #[trigger] s[a] as int,
                #[trigger] s[b] as int,
            ) by {
                if a < pos && b < pos {
                    assert(s[a] == old_order[a] && s[b] == old_order[b]);
                } else if a < pos && b == pos {
                    assert(s[a] == old_order[a]);
                } else if a < pos {
                    assert(s[a] == old_order[a] && s[b] == old_order[b - 1]);
                } else if a == pos {
                    assert(s[b] == old_order[b - 1]);
                } else {
                    assert(s[a] == old_order[a - 1] && s[b] == old_order[b - 1]);
                }
            }
            assert forall|k: int| 0 <= k < i + 1 implies #[trigger] lists(s, k) by {
                if k == i {
                    assert(s[pos as int] == k);
                } else {
                    assert(lists(old_order, k));
                    let a = choose|a: int| 0 <= a < old_order.len() && old_order[a] == k;
                    if a < pos {
                        assert(s[a] == k);
                    } else {
                        assert(s[a + 1] == k);
                    }
                }
            }
            assert forall|a: int| 0 <= a < s.len() implies #[trigger] s[a] < i + 1 by {
                if a < pos {
                    assert(s[a] == old_order[a]);
                } else if a > pos {
                    assert(s[a] == old_order[a - 1]);
                }
            }
        }
    }
    order
}

/// Orders `names` by ascending similarity key, keeping names with equal keys
/// in the order they were given; `keys[i]` belongs to `names[i]`.
pub fn order_by_keys(names: &Vec<String>, keys: &Vec<u64>) -> (r: Vec<String>)
    requires
        names@.len() == keys@.len(),
    ensures
        exists|order: Seq<usize>|
            is_stable_order(keys@, order) && r@.len() == names@.len() && forall|i: int|
                0 <= i < r@.len() ==> #[trigger] r@[i] == names@[order[i] as int],
{
    let order = stable_order(keys);
    let n = order.len();
    let mut r: Vec<String> = Vec::new();
    for i in 0..n
        invariant
            n == order@.len(),
            is_stable_order(keys@, order@),
            names@.len() == keys@.len(),
            r@.len() == i,
            forall|j: int| 0 <= j < i ==> #[trigger] r@[j] == names@[order@[j] as int],
    {
        assert(order@[i as int] < keys@.len());
        r.push(names[order[i]].clone());
    }
    r
}

/// Law: a stable order lists every position exactly once, by ascending
/// key, and equal keys in their original order.
pub proof fn lemma_stable_order_sorts(keys: Seq<u64>, order: Seq<usize>, i: int, j: int, k: int)
    requires
        is_stable_order(keys, order),
    ensures
        0 <= i < j < order.len() ==> {
            &&& keys[order[i] as int] <= keys[order[j] as int]
            &&& keys[order[i] as int] == keys[order[j] as int] ==> order[i] < order[j]
            &&& order[i] != order[j]
        },
        0 <= k < keys.len() ==> exists|p: int| 0 <= p < order.len() && #[trigger] order[p] == k,
{
    if 0 <= i < j < order.len() {
        assert(key_before(keys, order[i] as int, order[j] as int));
    }
    if 0 <= k < keys.len() {
        assert(lists(order, k));
    }
}

} // verus!
