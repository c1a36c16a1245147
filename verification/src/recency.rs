//! Listing stored rows newest first, as the administration screens show them.
use vstd::prelude::*;

verus! {

/// Position `j` appears in `order`.
pub open spec fn lists(order: Seq<usize>, j: int) -> bool {
    exists|i: int| 0 <= i < order.len() && order[i] == j
}

/// `order` lists every position of `times` exactly once, newest time first.
pub open spec fn newest_first_order(times: Seq<u64>, order: Seq<usize>) -> bool {
    &&& order.len() == times.len()
    &&& forall|j: int| 0 <= j < times.len() ==> #[trigger] lists(order, j)
    &&& forall|i: int| 0 <= i < order.len() ==> (#[trigger] order[i]) < times.len()
    &&& forall|i: int, j: int| 0 <= i < j < order.len() ==> (#[trigger] order[i]) != (#[trigger] order[j])
    &&& forall|i: int, j: int|
        0 <= i < j < order.len() ==> times[(#[trigger] order[i]) as int] >= times[(
        #[trigger] order[j]) as int]
}

/// The positions of `times` ordered by time, newest first.
pub fn newest_first(times: &Vec<u64>) -> (order: Vec<usize>)
    ensures
        newest_first_order(times@, order@),
{
    let mut order: Vec<usize> = Vec::new();
    let mut k: usize = 0;
    while k < times.len()
        invariant
            k <= times@.len(),
            order@.len() == k,
            forall|j: int| 0 <= j < k ==> #[trigger] lists(order@, j),
            forall|i: int| 0 <= i < order@.len() ==> (#[trigger] order@[i]) < k,
            forall|i: int, j: int|
                0 <= i < j < order@.len() ==> (#[trigger] order@[i]) != (#[trigger] order@[j]),
            forall|i: int, j: int|
                0 <= i < j < order@.len() ==> times@[(#[trigger] order@[i]) as int] >= times@[(
                #[trigger] order@[j]) as int],
        decreases times.len() - k,
    {
        let t = times[k];
        let mut p: usize = 0;
        while p < order.len() && times[order[p]] >= t
            invariant
                p <= order@.len(),
                order@.len() == k,
                k < times@.len(),
                t == times@[k as int],
                forall|i: int| 0 <= i < order@.len() ==> (#[trigger] order@[i]) < k,
                forall|i: int| 0 <= i < p ==> times@[(#[trigger] order@[i]) as int] >= t,
            decreases order.len() - p,
        {
            p = p + 1;
        }
        let ghost before = order@;
        proof {
            assert forall|i: int| p <= i < before.len() implies times@[(#[trigger] before[i]) as int]
                < t by {
                if p < before.len() {
                    assert(times@[before[p as int] as int] < t);
                    if i > p {
                        assert(times@[before[p as int] as int] >= times@[before[i] as int]);
                    }
                }
            }
        }
        order.insert(p, k);
        proof {
            assert forall|j: int| 0 <= j < k + 1 implies #[trigger] lists(order@, j) by {
                if j == k {
                    assert(order@[p as int] == k);
                } else {
                    assert(lists(before, j));
                    let i = choose|i: int| 0 <= i < before.len() && before[i] == j;
                    if i < p {
                        assert(order@[i] == j);
                    } else {
                        assert(order@[i + 1] == j);
                    }
                }
            }
            assert forall|i: int| 0 <= i < order@.len() implies (#[trigger] order@[i]) < k + 1 by {
                if i < p {
                    assert(order@[i] == before[i]);
                } else if i > p {
                    assert(order@[i] == before[i - 1]);
                }
            }
            assert forall|i: int, j: int|
                0 <= i < j < order@.len() implies (#[trigger] order@[i]) != (#[trigger] order@[j]) by {
                if i < p && j < p {
                    assert(order@[i] == before[i] && order@[j] == before[j]);
                } else if i < p && j == p {
                    assert(order@[i] == before[i]);
                } else if i < p && j > p {
                    assert(order@[i] == before[i] && order@[j] == before[j - 1]);
                } else if i == p {
                    assert(order@[j] == before[j - 1]);
                } else {
                    assert(order@[i] == before[i - 1] && order@[j] == before[j - 1]);
                }
            }
            assert forall|i: int, j: int|
                0 <= i < j < order@.len() implies times@[(#[trigger] order@[i]) as int] >= times@[(
                #[trigger] order@[j]) as int] by {
                if i < p && j < p {
                    assert(order@[i] == before[i] && order@[j] == before[j]);
                } else if i < p && j == p {
                    assert(order@[i] == before[i]);
                } else if i < p && j > p {
                    assert(order@[i] == before[i] && order@[j] == before[j - 1]);
                    assert(times@[before[j - 1] as int] < t);
                } else if i == p {
                    assert(order@[j] == before[j - 1]);
                    assert(times@[before[j - 1] as int] < t);
                } else {
                    assert(order@[i] == before[i - 1] && order@[j] == before[j - 1]);
                }
            }
        }
        k = k + 1;
    }
    order
}

} // verus!
