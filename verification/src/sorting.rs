//! Stable ordering by a two-part integer key.

use vstd::prelude::*;

verus! {

/// Position `a` comes before position `b`: a smaller key, or an equal key
/// and an earlier position.
pub open spec fn key_before(keys: Seq<(i128, u128)>, a: int, b: int) -> bool {
    let ka = keys[a];
    let kb = keys[b];
    ka.0 < kb.0 || (ka.0 == kb.0 && (ka.1 < kb.1 || (ka.1 == kb.1 && a < b)))
}

/// `order` lists each position below `n` exactly once.
pub open spec fn is_order_of(order: Seq<usize>, n: nat) -> bool {
    &&& order.len() == n
    &&& forall|i: int| 0 <= i < n ==> #[trigger] order[i] < n
    &&& forall|i: int, j: int| 0 <= i < n && 0 <= j < n && i != j ==> #[trigger] order[i] != #[trigger] order[j]
}

/// `order` lists the positions by key, ties kept in their original order.
pub open spec fn stably_sorted(keys: Seq<(i128, u128)>, order: Seq<usize>) -> bool {
    forall|a: int, b: int| 0 <= a < b < order.len() ==> key_before(keys, #[trigger] order[a] as int, #[trigger] order[b] as int)
}

fn key_greater(x: (i128, u128), y: (i128, u128)) -> (b: bool)
    ensures
        b == (x.0 > y.0 || (x.0 == y.0 && x.1 > y.1)),
{
    x.0 > y.0 || (x.0 == y.0 && x.1 > y.1)
}

/// The positions of `keys` in stable sorted order.
pub fn stable_order(keys: &Vec<(i128, u128)>) -> (order: Vec<usize>)
    ensures
        is_order_of(order@, keys@.len()),
        stably_sorted(keys@, order@),
{
    let n = keys.len();
    let mut order: Vec<usize> = Vec::new();
    let mut i: usize = 0;
    while i < n
        invariant
            n == keys@.len(),
            i <= n,
            is_order_of(order@, i as nat),
            stably_sorted(keys@, order@),
        decreases n - i,
    {
        let k = keys[i];
        let mut p: usize = 0;
        while p < order.len() && !key_greater(keys[order[p]], k)
            invariant
                n == keys@.len(),
                i < n,
                k == keys@[i as int],
                is_order_of(order@, i as nat),
                p <= order@.len(),
                forall|q: int| 0 <= q < p ==> key_before(keys@, #[trigger] order@[q] as int, i as int),
            decreases order@.len() - p,
        {
            p = p + 1;
        }
        let ghost before = order@;
        proof {
            if p < order@.len() {
                assert forall|q: int| p <= q < before.len() implies key_before(keys@, i as int, #[trigger] before[q] as int) by {
                    if q > p {
                        assert(key_before(keys@, before[p as int] as int, before[q] as int));
                    }
                }
            }
        }
        order.insert(p, i);
        proof {
            assert forall|a: int, b: int| 0 <= a < b < order@.len() implies key_before(keys@, #[trigger] order@[a] as int, #[trigger] order@[b] as int) by {
                if b < p {
                    assert(order@[a] == before[a]);
                    assert(order@[b] == before[b]);
                } else if b == p {
                    assert(order@[a] == before[a]);
                } else if a < p {
                    assert(order@[a] == before[a]);
                    assert(order@[b] == before[b - 1]);
                } else if a == p {
                    assert(order@[b] == before[b - 1]);
                } else {
                    assert(order@[a] == before[a - 1]);
                    assert(order@[b] == before[b - 1]);
                }
            }
            assert forall|x: int| 0 <= x < i + 1 implies #[trigger] order@[x] < i + 1 by {
                if x < p {
                    assert(order@[x] == before[x]);
                } else if x > p {
                    assert(order@[x] == before[x - 1]);
                }
            }
            assert forall|x: int, y: int| 0 <= x < i + 1 && 0 <= y < i + 1 && x != y implies #[trigger] order@[x] != #[trigger] order@[y] by {
                let x2 = if x < p { x } else { x - 1 };
                let y2 = if y < p { y } else { y - 1 };
                if x != p && y != p {
                    assert(order@[x] == before[x2]);
                    assert(order@[y] == before[y2]);
                } else if x == p {
                    assert(order@[y] == before[y2]);
                } else {
                    assert(order@[x] == before[x2]);
                }
            }
        }
        i = i + 1;
    }
    order
}

} // verus!
