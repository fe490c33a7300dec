//! The order in which clusters are probed.
use vstd::prelude::*;

use crate::single::Single;

verus! {

/// Whether some distance is less than another.
pub open spec fn tells_apart(distances: Seq<Single>) -> bool {
    exists|i: int, j: int|
        0 <= i < distances.len() && 0 <= j < distances.len() && (#[trigger] distances[i]).lt(
            #[trigger] distances[j],
        )
}

/// The key by which a distance is ranked among such that can be told apart; what
/// is not a number comes last.
pub open spec fn rank_key(distance: Single) -> int {
    if distance.is_nan_spec() {
        i64::MAX as int
    } else {
        distance.order()
    }
}

/// Whether cluster `a` is probed before cluster `b`: it is nearer, or as near
/// and listed before it. Clusters of which none is nearer than another keep their
/// order.
pub open spec fn precedes(distances: Seq<Single>, a: usize, b: usize) -> bool {
    let (key_a, key_b) = (rank_key(distances[a as int]), rank_key(distances[b as int]));
    if tells_apart(distances) {
        key_a < key_b || (key_a == key_b && a < b)
    } else {
        a < b
    }
}

/// Whether `order` lists the clusters from `low` to `high`, each once, in the
/// order in which they are probed.
pub open spec fn ranks_range(
    distances: Seq<Single>,
    order: Seq<usize>,
    low: int,
    high: int,
) -> bool {
    &&& order.len() == high - low
    &&& forall|cluster: usize| #[trigger] order.contains(cluster) <==> low <= cluster < high
    &&& forall|i: int, j: int|
        #![trigger order[i], order[j]]
        0 <= i < j < order.len() ==> precedes(distances, order[i], order[j])
}

/// Whether `order` lists all clusters, each once, nearest first.
pub open spec fn is_ranking(distances: Seq<Single>, order: Seq<usize>) -> bool {
    ranks_range(distances, order, 0, distances.len() as int)
}

/// The order in which clusters at these distances are probed.
pub open spec fn ranking(distances: Seq<Single>) -> Seq<usize> {
    choose|order: Seq<usize>| is_ranking(distances, order)
}

/// No two orders rank the same distances.
pub proof fn law_ranking_is_unique(distances: Seq<Single>, a: Seq<usize>, b: Seq<usize>)
    requires
        is_ranking(distances, a),
        is_ranking(distances, b),
    ensures
        a == b,
{
    assert forall|k: int| 0 <= k < a.len() implies a[k] == b[k] by {
        lemma_same_at(distances, a, b, k);
    }
    assert(a =~= b);
}

proof fn lemma_same_at(distances: Seq<Single>, a: Seq<usize>, b: Seq<usize>, k: int)
    requires
        is_ranking(distances, a),
        is_ranking(distances, b),
        0 <= k < a.len(),
    ensures
        a[k] == b[k],
    decreases k,
{
    assert forall|j: int| 0 <= j < k implies a[j] == b[j] by {
        lemma_same_at(distances, a, b, j);
    }
    assert(a.contains(a[k]));
    assert(b.contains(b[k]));
    assert(b.contains(a[k]));
    assert(a.contains(b[k]));
    let m = choose|m: int| 0 <= m < b.len() && b[m] == a[k];
    let p = choose|p: int| 0 <= p < a.len() && a[p] == b[k];
    if m < k {
        assert(precedes(distances, a[m], a[k]));
    } else if p < k {
        assert(precedes(distances, b[p], b[k]));
    } else if m > k && p > k {
        assert(precedes(distances, b[k], b[m]));
        assert(precedes(distances, a[k], a[p]));
    }
}

/// Equal distances, and distances that are no numbers beside them, leave the
/// clusters in the order in which they are listed.
pub proof fn law_equal_distances_keep_order(distances: Seq<Single>, order: Seq<usize>)
    requires
        is_ranking(distances, order),
        forall|i: int, j: int|
            #![trigger distances[i], distances[j]]
            0 <= i < distances.len() && 0 <= j < distances.len() && !distances[i].is_nan_spec()
                && !distances[j].is_nan_spec() ==> distances[i].order() == distances[j].order(),
    ensures
        forall|i: int, j: int|
            #![trigger order[i], order[j]]
            0 <= i < j < order.len() ==> order[i] < order[j],
{
    assert forall|i: int, j: int|
        #![trigger order[i], order[j]]
        0 <= i < j < order.len() implies order[i] < order[j] by {
        assert(precedes(distances, order[i], order[j]));
    }
}

/// Some order ranks the distances.
pub proof fn law_ranking_exists(distances: Seq<Single>)
    requires
        distances.len() <= usize::MAX,
    ensures
        is_ranking(distances, ranking(distances)),
{
    let order = lemma_ranked_prefix(distances, distances.len());
    assert(is_ranking(distances, order));
}

proof fn lemma_ranked_prefix(distances: Seq<Single>, count: nat) -> (order: Seq<usize>)
    requires
        count <= distances.len() <= usize::MAX,
    ensures
        ranks_range(distances, order, 0, count as int),
    decreases count,
{
    if count == 0 {
        assert(Seq::<usize>::empty().len() == 0);
        Seq::empty()
    } else {
        let before = lemma_ranked_prefix(distances, (count - 1) as nat);
        let last = (count - 1) as usize;
        let at = lemma_place(distances, before, last, before.len());
        let order = before.insert(at, last);
        assert forall|cluster: usize| #[trigger] order.contains(cluster) <==> 0 <= cluster
            < count by {
            if order.contains(cluster) {
                let i = choose|i: int| 0 <= i < order.len() && order[i] == cluster;
                if i < at {
                    assert(before.contains(before[i]));
                } else if i > at {
                    assert(before.contains(before[i - 1]));
                }
            }
            if cluster < last {
                assert(before.contains(cluster));
                let i = choose|i: int| 0 <= i < before.len() && before[i] == cluster;
                assert(order[if i < at {
                    i
                } else {
                    i + 1
                }] == cluster);
            } else if cluster == last {
                assert(order[at] == last);
            }
        }
        assert forall|i: int, j: int|
            #![trigger order[i], order[j]]
            0 <= i < j < order.len() implies precedes(distances, order[i], order[j]) by {
            let source = |k: int|
                if k < at {
                    k
                } else {
                    k - 1
                };
            if i != at && j != at {
                assert(precedes(distances, before[source(i)], before[source(j)]));
            } else if i == at {
                assert(precedes(distances, last, before[j - 1]));
            } else {
                assert(precedes(distances, before[i], last));
            }
        }
        order
    }
}

/// The place of a cluster with a larger index among ranked clusters.
proof fn lemma_place(distances: Seq<Single>, ranked: Seq<usize>, cluster: usize, upto: nat) -> (at:
    int)
    requires
        ranks_range(distances, ranked, 0, cluster as int),
        upto <= ranked.len(),
        forall|i: int|
            upto <= i < ranked.len() ==> precedes(distances, cluster, #[trigger] ranked[i]),
    ensures
        0 <= at <= ranked.len(),
        forall|i: int| 0 <= i < at ==> precedes(distances, #[trigger] ranked[i], cluster),
        forall|i: int|
            at <= i < ranked.len() ==> precedes(distances, cluster, #[trigger] ranked[i]),
    decreases upto,
{
    if upto == 0 {
        0
    } else {
        let last = ranked[upto - 1];
        assert(ranked.contains(last));
        if precedes(distances, cluster, last) {
            lemma_place(distances, ranked, cluster, (upto - 1) as nat)
        } else {
            assert forall|i: int| 0 <= i < upto implies precedes(
                distances,
                #[trigger] ranked[i],
                cluster,
            ) by {
                if i < upto - 1 {
                    assert(precedes(distances, ranked[i], last));
                }
            }
            upto as int
        }
    }
}

/// The key by which a distance is ranked.
fn key_of(distance: Single) -> (key: i64)
    ensures
        key == rank_key(distance),
{
    if distance.is_nan() {
        i64::MAX
    } else {
        distance.order_key()
    }
}

/// Whether cluster `a` is probed before cluster `b`.
fn comes_first(distances: &[Single], a: usize, b: usize) -> (result: bool)
    requires
        tells_apart(distances@),
        a < distances@.len(),
        b < distances@.len(),
    ensures
        result == precedes(distances@, a, b),
{
    let key_a: i64 = key_of(distances[a]);
    let key_b: i64 = key_of(distances[b]);
    key_a < key_b || (key_a == key_b && a < b)
}

/// Ranks the clusters from `low` to `high`.
fn rank_range(distances: &[Single], low: usize, high: usize) -> (order: Vec<usize>)
    requires
        tells_apart(distances@),
        low <= high <= distances@.len(),
    ensures
        ranks_range(distances@, order@, low as int, high as int),
    decreases high - low,
{
    if low == high {
        return Vec::new();
    }
    if high - low == 1 {
        let mut order: Vec<usize> = Vec::new();
        order.push(low);
        assert(order@[0] == low);
        return order;
    }
    let middle: usize = low + (high - low) / 2;
    let left: Vec<usize> = rank_range(distances, low, middle);
    let right: Vec<usize> = rank_range(distances, middle, high);
    merge(distances, left, right, Ghost(low as int), Ghost(middle as int), Ghost(high as int))
}

/// Merges the rankings of two adjacent ranges.
fn merge(
    distances: &[Single],
    left: Vec<usize>,
    right: Vec<usize>,
    Ghost(low): Ghost<int>,
    Ghost(middle): Ghost<int>,
    Ghost(high): Ghost<int>,
) -> (order: Vec<usize>)
    requires
        tells_apart(distances@),
        0 <= low <= middle <= high <= distances@.len(),
        ranks_range(distances@, left@, low, middle),
        ranks_range(distances@, right@, middle, high),
    ensures
        ranks_range(distances@, order@, low, high),
{
    let mut order: Vec<usize> = Vec::new();
    let mut i: usize = 0;
    let mut j: usize = 0;
    while i < left.len() || j < right.len()
        invariant
            tells_apart(distances@),
            0 <= low <= middle <= high <= distances@.len(),
            ranks_range(distances@, left@, low, middle),
            ranks_range(distances@, right@, middle, high),
            i <= left.len(),
            j <= right.len(),
            order.len() == i + j,
            forall|a: int, b: int|
                #![trigger order@[a], order@[b]]
                0 <= a < b < order.len() ==> precedes(distances@, order@[a], order@[b]),
            forall|a: int, b: int|
                #![trigger order@[a], left@[b]]
                0 <= a < order.len() && i <= b < left.len() ==> precedes(
                    distances@,
                    order@[a],
                    left@[b],
                ),
            forall|a: int, b: int|
                #![trigger order@[a], right@[b]]
                0 <= a < order.len() && j <= b < right.len() ==> precedes(
                    distances@,
                    order@[a],
                    right@[b],
                ),
            forall|a: int| 0 <= a < order.len() ==> low <= #[trigger] order@[a] < high,
            forall|b: int| 0 <= b < i ==> order@.contains(#[trigger] left@[b]),
            forall|b: int| 0 <= b < j ==> order@.contains(#[trigger] right@[b]),
        decreases left.len() - i + right.len() - j,
    {
        let ghost before = order@;
        proof {
            if i < left.len() {
                assert(left@.contains(left@[i as int]));
            }
            if j < right.len() {
                assert(right@.contains(right@[j as int]));
            }
        }
        let take_left: bool = if i == left.len() {
            false
        } else if j == right.len() {
            true
        } else {
            comes_first(distances, left[i], right[j])
        };
        if take_left {
            order.push(left[i]);
            proof {
                if j < right.len() {
                    assert forall|b: int| j <= b < right.len() implies precedes(
                        distances@,
                        left@[i as int],
                        #[trigger] right@[b],
                    ) by {
                        if b > j {
                            assert(precedes(distances@, right@[j as int], right@[b]));
                        }
                    }
                }
            }
            i += 1;
        } else {
            order.push(right[j]);
            proof {
                if i < left.len() {
                    assert forall|b: int| i <= b < left.len() implies precedes(
                        distances@,
                        right@[j as int],
                        #[trigger] left@[b],
                    ) by {
                        if b > i {
                            assert(precedes(distances@, left@[i as int], left@[b]));
                        }
                    }
                }
            }
            j += 1;
        }
        proof {
            assert(order@.last() == order@[before.len() as int]);
            assert forall|x: usize| before.contains(x) implies order@.contains(x) by {
                let a = choose|a: int| 0 <= a < before.len() && before[a] == x;
                assert(order@[a] == x);
            }
        }
    }
    proof {
        assert forall|cluster: usize| #[trigger] order@.contains(cluster) <==> low <= cluster
            < high by {
            if low <= cluster < middle {
                assert(left@.contains(cluster));
            } else if middle <= cluster < high {
                assert(right@.contains(cluster));
            }
        }
    }
    order
}

/// Whether some distance is less than another.
fn can_be_told_apart(distances: &[Single]) -> (result: bool)
    ensures
        result == tells_apart(distances@),
{
    let mut first: Option<usize> = None;
    for idx in 0..distances.len()
        invariant
            match first {
                Some(number) => {
                    &&& number < idx
                    &&& !distances@[number as int].is_nan_spec()
                    &&& forall|i: int|
                        0 <= i < idx ==> (#[trigger] distances@[i]).is_nan_spec()
                            || distances@[i].order() == distances@[number as int].order()
                },
                None => forall|i: int| 0 <= i < idx ==> (#[trigger] distances@[i]).is_nan_spec(),
            },
    {
        if !distances[idx].is_nan() {
            match first {
                Some(number) => {
                    if distances[number].order_key() != distances[idx].order_key() {
                        assert(distances@[number as int].lt(distances@[idx as int])
                            || distances@[idx as int].lt(distances@[number as int]));
                        return true;
                    }
                },
                None => {
                    first = Some(idx);
                },
            }
        }
    }
    false
}

/// The clusters in the order in which they are listed.
fn listed_order(count: usize) -> (order: Vec<usize>)
    ensures
        order@.len() == count,
        forall|i: int| 0 <= i < count ==> #[trigger] order@[i] == i,
{
    let mut order: Vec<usize> = Vec::new();
    for idx in 0..count
        invariant
            order@.len() == idx,
            forall|i: int| 0 <= i < idx ==> #[trigger] order@[i] == i,
    {
        order.push(idx);
    }
    order
}

/// Ranks clusters by their distance to a query, nearest first; clusters at the
/// same distance keep their order, and so do all if none is nearer than another.
pub fn rank_clusters(distances: &[Single]) -> (order: Vec<usize>)
    ensures
        is_ranking(distances@, order@),
        order@ == ranking(distances@),
{
    let order: Vec<usize> = if can_be_told_apart(distances) {
        rank_range(distances, 0, distances.len())
    } else {
        listed_order(distances.len())
    };
    proof {
        if !tells_apart(distances@) {
            assert forall|cluster: usize| #[trigger] order@.contains(cluster) <==> 0 <= cluster
                < distances@.len() by {
                if cluster < distances@.len() {
                    assert(order@[cluster as int] == cluster);
                }
            }
        }
        assert(is_ranking(distances@, order@));
        law_ranking_is_unique(distances@, order@, ranking(distances@));
    }
    order
}

/// A ranking lists every cluster once. Among distances that are all numbers, what comes
/// first is no farther than what follows, and of equally far clusters the one with the
/// smaller number comes first.
pub proof fn law_nearest_cluster_comes_first(distances: Seq<Single>, order: Seq<usize>)
    requires
        is_ranking(distances, order),
    ensures
        order.len() == distances.len(),
        forall|cluster: usize| cluster < distances.len() ==> #[trigger] order.contains(cluster),
        forall|i: int| 0 <= i < order.len() ==> (#[trigger] order[i]) < distances.len(),
        forall|i: int, j: int|
            #![trigger order[i], order[j]]
            0 <= i < j < order.len() ==> order[i] != order[j],
        (forall|i: int| 0 <= i < distances.len() ==> !(#[trigger] distances[i]).is_nan_spec())
            ==> forall|i: int, j: int|
            #![trigger order[i], order[j]]
            0 <= i < j < order.len() ==> {
                let (near, far) = (distances[order[i] as int], distances[order[j] as int]);
                near.lt(far) || (near.le(far) && order[i] < order[j])
            },
{
    assert forall|i: int| 0 <= i < order.len() implies (#[trigger] order[i])
        < distances.len() by {
        assert(order.contains(order[i]));
    }
    assert forall|i: int, j: int|
        #![trigger order[i], order[j]]
        0 <= i < j < order.len() implies order[i] != order[j] by {
        assert(precedes(distances, order[i], order[j]));
    }
    if forall|i: int| 0 <= i < distances.len() ==> !(#[trigger] distances[i]).is_nan_spec() {
        assert forall|i: int, j: int|
            #![trigger order[i], order[j]]
            0 <= i < j < order.len() implies {
            let (near, far) = (distances[order[i] as int], distances[order[j] as int]);
            near.lt(far) || (near.le(far) && order[i] < order[j])
        } by {
            assert(precedes(distances, order[i], order[j]));
            let (near, far) = (distances[order[i] as int], distances[order[j] as int]);
            assert(!near.is_nan_spec() && !far.is_nan_spec());
            if far.lt(near) {
                assert(tells_apart(distances));
            }
        }
    }
}

/// What is no number comes behind the numbers wherever these differ.
pub proof fn law_numbers_come_first(distances: Seq<Single>, order: Seq<usize>, i: int, j: int)
    requires
        is_ranking(distances, order),
        0 <= i < j < order.len(),
        exists|a: int, b: int|
            0 <= a < distances.len() && 0 <= b < distances.len() && (#[trigger] distances[a]).lt(
                #[trigger] distances[b],
            ),
    ensures
        distances[order[i] as int].is_nan_spec() ==> distances[order[j] as int].is_nan_spec(),
        !distances[order[j] as int].is_nan_spec() ==> distances[order[i] as int].le(
            distances[order[j] as int],
        ),
{
    assert(precedes(distances, order[i], order[j]));
}

} // verus!
