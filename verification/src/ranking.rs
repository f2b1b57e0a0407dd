//! Ranking by CPU use: the order in which sampled processes are shown, largest
//! CPU value first, processes of equal value in the order in which they were
//! sampled.

use vstd::prelude::*;

verus! {

/// The number of rows that a display of `limit` rows shows of `available` ones.
pub open spec fn shown(limit: int, available: int) -> int {
    if limit < available {
        limit
    } else {
        available
    }
}

/// Whether the entry at index `i` is shown before the entry at index `j`: it
/// has the larger CPU value, or the same value and was sampled earlier.
pub open spec fn precedes(keys: Seq<u64>, i: int, j: int) -> bool {
    keys[i] > keys[j] || (keys[i] == keys[j] && i < j)
}

/// Where a new entry of CPU value `cpu` joins `order`, a ranking of indices
/// into `keys`: at the first position that holds a smaller value, so behind
/// every entry of the same value.
pub open spec fn insertion_point(keys: Seq<u64>, order: Seq<int>, cpu: u64) -> int
    decreases order.len(),
{
    if order.len() == 0 {
        0
    } else if keys[order[0]] < cpu {
        0
    } else {
        1 + insertion_point(keys, order.drop_first(), cpu)
    }
}

/// The indices of `keys` in display order. Entry `k` of the result is the
/// index of the entry shown in row `k`. Entries join one by one, in the order
/// in which they were sampled.
pub open spec fn ranking(keys: Seq<u64>) -> Seq<int>
    decreases keys.len(),
{
    if keys.len() == 0 {
        Seq::<int>::empty()
    } else {
        let earlier = ranking(keys.drop_last());
        earlier.insert(insertion_point(keys, earlier, keys.last()), keys.len() - 1)
    }
}

/// The indices held by `order`, as mathematical integers.
pub open spec fn indices(order: Seq<usize>) -> Seq<int> {
    order.map_values(|index: usize| index as int)
}

/// The insertion point is the one position `p` with only values of at least
/// `cpu` before it and a smaller value at it.
pub proof fn lemma_insertion_point_is(keys: Seq<u64>, order: Seq<int>, cpu: u64, p: int)
    requires
        0 <= p <= order.len(),
        forall|j: int| 0 <= j < p ==> keys[#[trigger] order[j]] >= cpu,
        p < order.len() ==> keys[order[p]] < cpu,
    ensures
        insertion_point(keys, order, cpu) == p,
    decreases order.len(),
{
    if order.len() > 0 && p > 0 {
        assert(keys[order[0]] >= cpu);
        let rest = order.drop_first();
        assert forall|j: int| 0 <= j < p - 1 implies keys[#[trigger] rest[j]] >= cpu by {
            assert(rest[j] == order[j + 1]);
        }
        lemma_insertion_point_is(keys, rest, cpu, p - 1);
    }
}

/// The insertion point lies within `order`, follows only values of at least
/// `cpu`, and holds a smaller value unless it is the end.
pub proof fn lemma_insertion_point_bounds(keys: Seq<u64>, order: Seq<int>, cpu: u64)
    ensures
        0 <= insertion_point(keys, order, cpu) <= order.len(),
        forall|j: int|
            0 <= j < insertion_point(keys, order, cpu) ==> keys[#[trigger] order[j]] >= cpu,
        insertion_point(keys, order, cpu) < order.len() ==> keys[order[insertion_point(
            keys,
            order,
            cpu,
        )]] < cpu,
    decreases order.len(),
{
    if order.len() > 0 && keys[order[0]] >= cpu {
        let rest = order.drop_first();
        lemma_insertion_point_bounds(keys, rest, cpu);
        let p = insertion_point(keys, order, cpu);
        assert forall|j: int| 0 <= j < p implies keys[#[trigger] order[j]] >= cpu by {
            if j > 0 {
                assert(order[j] == rest[j - 1]);
            }
        }
        if p < order.len() {
            assert(order[p] == rest[p - 1]);
        }
    }
}

/// Cutting a ranking short moves the insertion point to the cut at most.
pub proof fn lemma_insertion_point_of_prefix(keys: Seq<u64>, order: Seq<int>, cpu: u64, cut: int)
    requires
        0 <= cut <= order.len(),
    ensures
        insertion_point(keys, order.take(cut), cpu) == shown(
            cut,
            insertion_point(keys, order, cpu),
        ),
{
    let p = insertion_point(keys, order, cpu);
    lemma_insertion_point_bounds(keys, order, cpu);
    let q = shown(cut, p);
    let prefix = order.take(cut);
    assert forall|j: int| 0 <= j < q implies keys[#[trigger] prefix[j]] >= cpu by {
        assert(prefix[j] == order[j]);
    }
    lemma_insertion_point_is(keys, prefix, cpu, q);
}

/// The ranking holds every index of `keys` once, and each of its entries is
/// shown before the entries behind it.
pub proof fn lemma_ranking_orders_every_index(keys: Seq<u64>)
    ensures
        ranking(keys).len() == keys.len(),
        forall|k: int| 0 <= k < keys.len() ==> 0 <= #[trigger] ranking(keys)[k] < keys.len(),
        forall|a: int, b: int|
            0 <= a < b < keys.len() ==> precedes(
                keys,
                #[trigger] ranking(keys)[a],
                #[trigger] ranking(keys)[b],
            ),
        forall|i: int| 0 <= i < keys.len() ==> #[trigger] ranking(keys).contains(i),
    decreases keys.len(),
{
    if keys.len() > 0 {
        let before = keys.drop_last();
        let earlier = ranking(before);
        let newest = keys.len() - 1;
        let cpu = keys.last();
        let p = insertion_point(keys, earlier, cpu);
        let order = ranking(keys);
        lemma_ranking_orders_every_index(before);
        lemma_insertion_point_bounds(keys, earlier, cpu);
        assert(order == earlier.insert(p, newest));
        assert forall|k: int| 0 <= k < earlier.len() implies before[#[trigger] earlier[k]]
            == keys[earlier[k]] by {}
        assert forall|a: int, b: int| 0 <= a < b < keys.len() implies precedes(
            keys,
            #[trigger] order[a],
            #[trigger] order[b],
        ) by {
            if b == p {
                assert(order[a] == earlier[a]);
                assert(keys[earlier[a]] >= cpu);
            } else if a == p {
                assert(order[b] == earlier[b - 1]);
                if b - 1 > p {
                    assert(precedes(before, earlier[p], earlier[b - 1]));
                }
                assert(keys[earlier[b - 1]] < cpu);
            } else {
                let a0 = if a < p { a } else { a - 1 };
                let b0 = if b < p { b } else { b - 1 };
                assert(order[a] == earlier[a0]);
                assert(order[b] == earlier[b0]);
                assert(precedes(before, earlier[a0], earlier[b0]));
            }
        }
        assert forall|i: int| 0 <= i < keys.len() implies #[trigger] order.contains(i) by {
            if i == newest {
                assert(order[p] == i);
            } else {
                assert(earlier.contains(i));
                let k = choose|k: int| 0 <= k < earlier.len() && earlier[k] == i;
                if k < p {
                    assert(order[k] == i);
                } else {
                    assert(order[k + 1] == i);
                }
            }
        }
    }
}

/// A ranking is in order of CPU value, largest first.
pub proof fn lemma_ranking_is_sorted(keys: Seq<u64>)
    ensures
        forall|a: int, b: int|
            0 <= a <= b < keys.len() ==> keys[#[trigger] ranking(keys)[a]] >= keys[#[trigger] ranking(
                keys,
            )[b]],
{
    lemma_ranking_orders_every_index(keys);
    assert forall|a: int, b: int| 0 <= a <= b < keys.len() implies keys[#[trigger] ranking(
        keys,
    )[a]] >= keys[#[trigger] ranking(keys)[b]] by {
        if a < b {
            assert(precedes(keys, ranking(keys)[a], ranking(keys)[b]));
        }
    }
}

/// A ranking is stable: of two entries with the same CPU value, the one that
/// was sampled first is shown first.
pub proof fn lemma_ranking_is_stable(keys: Seq<u64>)
    ensures
        forall|a: int, b: int|
            0 <= a < b < keys.len() && keys[#[trigger] ranking(keys)[a]] == keys[#[trigger] ranking(
                keys,
            )[b]] ==> ranking(keys)[a] < ranking(keys)[b],
{
    lemma_ranking_orders_every_index(keys);
    assert forall|a: int, b: int|
        0 <= a < b < keys.len() && keys[#[trigger] ranking(keys)[a]] == keys[#[trigger] ranking(
            keys,
        )[b]] implies ranking(keys)[a] < ranking(keys)[b] by {
        assert(precedes(keys, ranking(keys)[a], ranking(keys)[b]));
    }
}

/// The first `limit` entries of the ranking of `keys`: the indices of the
/// entries to show, in display order.
pub fn rank_by_cpu(keys: &Vec<u64>, limit: usize) -> (order: Vec<usize>)
    ensures
        indices(order@) == ranking(keys@).take(shown(limit as int, keys@.len() as int)),
        order@.len() == shown(limit as int, keys@.len() as int),
        forall|k: int| 0 <= k < order@.len() ==> #[trigger] order@[k] as int == ranking(keys@)[k],
{
    let mut order: Vec<usize> = Vec::new();
    let mut i: usize = 0;
    proof {
        assert(keys@.take(0) =~= Seq::<u64>::empty());
        assert(indices(order@) =~= ranking(keys@.take(0)).take(0));
    }
    while i < keys.len()
        invariant
            i <= keys.len(),
            indices(order@) == ranking(keys@.take(i as int)).take(shown(limit as int, i as int)),
        decreases keys.len() - i,
    {
        let cpu: u64 = keys[i];
        let ghost seen = keys@.take(i as int);
        let ghost next = keys@.take(i + 1);
        let ghost earlier = ranking(seen);
        let ghost top = indices(order@);
        proof {
            assert(next.drop_last() =~= seen);
            assert(next.last() == cpu);
            lemma_ranking_orders_every_index(seen);
            assert(top.len() == order@.len());
            assert forall|k: int| 0 <= k < order@.len() implies #[trigger] order@[k] < i by {
                assert(top[k] == earlier[k]);
                assert(top[k] == order@[k] as int);
            }
        }
        let mut p: usize = 0;
        while p < order.len() && keys[order[p]] >= cpu
            invariant
                p <= order.len(),
                i < keys.len(),
                top == indices(order@),
                top.len() == order@.len(),
                forall|k: int| 0 <= k < order@.len() ==> #[trigger] order@[k] < i,
                forall|j: int| 0 <= j < p ==> keys@[#[trigger] top[j]] >= cpu,
            decreases order.len() - p,
        {
            proof {
                assert(top[p as int] == order@[p as int] as int);
            }
            p = p + 1;
        }
        proof {
            if (p as int) < order@.len() {
                assert(top[p as int] == order@[p as int] as int);
            }
            assert forall|j: int| 0 <= j < p implies next[#[trigger] top[j]] >= cpu by {
                assert(next[top[j]] == keys@[top[j]]);
            }
            if (p as int) < top.len() {
                assert(next[top[p as int]] == keys@[top[p as int]]);
            }
            lemma_insertion_point_is(next, top, cpu, p as int);
            lemma_insertion_point_of_prefix(next, earlier, cpu, shown(limit as int, i as int));
            lemma_insertion_point_bounds(next, earlier, cpu);
        }
        let ghost full = insertion_point(next, earlier, cpu);
        let ghost target = ranking(next).take(shown(limit as int, i + 1));
        proof {
            assert(ranking(next) == earlier.insert(full, i as int));
        }
        if p < limit {
            order.insert(p, i);
            proof {
                assert(full == p);
                assert(indices(order@) =~= top.insert(p as int, i as int));
            }
            if order.len() > limit {
                order.pop();
                proof {
                    assert(indices(order@) =~= top.insert(p as int, i as int).drop_last());
                }
            }
            proof {
                assert(indices(order@) =~= target);
            }
        } else {
            proof {
                assert(full >= limit);
                assert(indices(order@) =~= target);
            }
        }
        i = i + 1;
    }
    proof {
        assert(keys@.take(keys@.len() as int) =~= keys@);
        lemma_ranking_orders_every_index(keys@);
        assert(indices(order@).len() == order@.len());
        assert forall|k: int| 0 <= k < order@.len() implies #[trigger] order@[k] as int == ranking(
            keys@,
        )[k] by {
            assert(indices(order@)[k] == order@[k] as int);
        }
    }
    order
}

} // verus!
