//! What holds of clustering: joining, merging, splitting, and which neighbours are warmed.
use vstd::prelude::*;

use crate::clusters::{
    closest, farthest, merged, side, too_loose, warmed, ClusterAssignment, ClusterInfo,
};

verus! {

/// A memory is assigned to a cluster that no other is more similar than and that reaches the threshold, the
/// first of several; a new cluster is made exactly if none does.
pub proof fn assignment_goes_to_the_most_similar(
    clusters: Seq<ClusterInfo>,
    threshold: i64,
    r: ClusterAssignment,
    k: int,
)
    requires
        match closest(clusters, clusters.len()) {
            Some(i) => if crate::ranking::reaches(clusters[i].similarity, threshold) {
                r matches ClusterAssignment::Existing(id) && id@ == clusters[i].id@
            } else {
                r is NewCluster
            },
            None => r is NewCluster,
        },
        threshold > -0x3f80_0000,
        0 <= k < clusters.len(),
    ensures
        clusters[k].similarity >= threshold ==> r is Existing,
        r is NewCluster ==> clusters[k].similarity < threshold,
        r matches ClusterAssignment::Existing(id) ==> exists|i: int|
            0 <= i < clusters.len() && (#[trigger] clusters[i]).id@ == id@ && clusters[i].similarity
                >= threshold && clusters[k].similarity <= clusters[i].similarity && (
            clusters[k].similarity == clusters[i].similarity ==> i <= k),
{
    crate::clusters::the_closest_is_the_best(clusters, clusters.len());
}

/// Two clusters merge exactly if they are not less similar than the threshold, and the one with more
/// members stays, the first of two of one size.
pub proof fn similar_clusters_merge_into_the_larger(
    id_a: Seq<char>,
    count_a: usize,
    id_b: Seq<char>,
    count_b: usize,
    similarity: i64,
    threshold: i64,
)
    requires
        similarity != i64::MIN,
        threshold != i64::MIN,
    ensures
        merged(id_a, count_a, id_b, count_b, similarity, threshold) is Some <==> similarity
            >= threshold,
        similarity >= threshold && count_a >= count_b ==> merged(
            id_a,
            count_a,
            id_b,
            count_b,
            similarity,
            threshold,
        ) == Some((id_a, id_b)),
        similarity >= threshold && count_a < count_b ==> merged(
            id_a,
            count_a,
            id_b,
            count_b,
            similarity,
            threshold,
        ) == Some((id_b, id_a)),
{
}

/// A cluster is split exactly if it has four members or more and their average similarity is below the
/// floor.
pub proof fn loose_clusters_of_four_are_split(members: int, average: i64, floor: i64)
    requires
        average != i64::MIN,
        floor != i64::MIN,
    ensures
        too_loose(members, average, floor) <==> members >= 4 && average < floor,
{
}

proof fn lemma_side(to_a: Seq<i64>, to_b: Seq<i64>, first: bool, n: nat, i: int)
    requires
        0 <= i < n,
    ensures
        side(to_a, to_b, first, n).contains(i) <==> (crate::ranking::reaches(to_a[i], to_b[i])
            == first),
    decreases n,
{
    let m = (n - 1) as nat;
    let before = side(to_a, to_b, first, m);
    let all = side(to_a, to_b, first, n);
    crate::clusters::a_split_parts_the_members(to_a, to_b, m);
    if i < m {
        lemma_side(to_a, to_b, first, m, i);
        if before.contains(i) {
            let k = choose|k: int| 0 <= k < before.len() && before[k] == i;
            assert(all[k] == i);
        }
        if all.contains(i) {
            let k = choose|k: int| 0 <= k < all.len() && all[k] == i;
            assert(before[k] == i);
        }
    } else {
        if crate::ranking::reaches(to_a[i], to_b[i]) == first {
            assert(all[before.len() as int] == i);
        } else if all.contains(i) {
            let k = choose|k: int| 0 <= k < all.len() && all[k] == i;
            assert(before[k] == i);
        }
    }
}

/// A member goes to the centre that it is more similar to, and to the first one on a tie.
pub proof fn members_go_to_the_nearer_centre(to_a: Seq<i64>, to_b: Seq<i64>, n: nat, i: int)
    requires
        0 <= i < n,
        to_a[i] != i64::MIN,
        to_b[i] != i64::MIN,
    ensures
        to_a[i] >= to_b[i] ==> side(to_a, to_b, true, n).contains(i) && !side(
            to_a,
            to_b,
            false,
            n,
        ).contains(i),
        to_a[i] < to_b[i] ==> side(to_a, to_b, false, n).contains(i) && !side(
            to_a,
            to_b,
            true,
            n,
        ).contains(i),
{
    lemma_side(to_a, to_b, true, n, i);
    lemma_side(to_a, to_b, false, n, i);
}

/// The second group of a split starts from the member farthest from the first, the earliest of several.
pub proof fn the_second_seed_is_farthest(distances: Seq<i64>, n: nat, j: int)
    requires
        2 <= n <= distances.len(),
        1 <= j < n,
        distances[j] > -0x3f80_0000,
    ensures
        1 <= farthest(distances, n) < n,
        distances[j] <= distances[farthest(distances, n)],
        j < farthest(distances, n) ==> distances[j] < distances[farthest(distances, n)],
    decreases n,
{
    crate::clusters::the_farthest_is_the_farthest(distances, n);
    lemma_farthest_first(distances, n, j);
}

proof fn lemma_farthest_first(distances: Seq<i64>, n: nat, j: int)
    requires
        2 <= n <= distances.len(),
        1 <= j < n,
        distances[j] > -0x3f80_0000,
    ensures
        j < farthest(distances, n) ==> distances[j] < distances[farthest(distances, n)],
    decreases n,
{
    let m = (n - 1) as nat;
    if n > 2 {
        crate::clusters::the_farthest_is_the_farthest(distances, m);
        if j < m {
            lemma_farthest_first(distances, m, j);
        }
    }
}

/// A neighbour is warmed exactly if it lies within the hop limit and its share of heat is more than
/// negligible; the warmed ones keep their order, and none is warmed twice.
pub proof fn neighbours_in_reach_are_warmed(
    hops: Seq<u32>,
    heat: Seq<i64>,
    max_hops: u32,
    negligible: i64,
    n: nat,
)
    requires
        n <= hops.len(),
        hops.len() == heat.len(),
    ensures
        forall|i: int|
            0 <= i < n ==> (#[trigger] warmed(hops, heat, max_hops, negligible, n).contains(i)
                <==> hops[i] <= max_hops && heat[i] > negligible),
        forall|k: int|
            0 <= k < warmed(hops, heat, max_hops, negligible, n).len() ==> 0 <= #[trigger] warmed(
                hops,
                heat,
                max_hops,
                negligible,
                n,
            )[k] < n,
        forall|k: int, l: int|
            0 <= k < l < warmed(hops, heat, max_hops, negligible, n).len() ==> #[trigger] warmed(
                hops,
                heat,
                max_hops,
                negligible,
                n,
            )[k] < #[trigger] warmed(hops, heat, max_hops, negligible, n)[l],
    decreases n,
{
    if n > 0 {
        let m = (n - 1) as nat;
        neighbours_in_reach_are_warmed(hops, heat, max_hops, negligible, m);
        let before = warmed(hops, heat, max_hops, negligible, m);
        let all = warmed(hops, heat, max_hops, negligible, n);
        assert forall|i: int| 0 <= i < n implies (#[trigger] all.contains(i) <==> hops[i] <= max_hops
            && heat[i] > negligible) by {
            if i < m {
                if before.contains(i) {
                    let k = choose|k: int| 0 <= k < before.len() && before[k] == i;
                    assert(all[k] == i);
                }
                if all.contains(i) {
                    let k = choose|k: int| 0 <= k < all.len() && all[k] == i;
                    assert(before[k] == i);
                }
            } else {
                if hops[i] <= max_hops && heat[i] > negligible {
                    assert(all[before.len() as int] == i);
                } else if all.contains(i) {
                    let k = choose|k: int| 0 <= k < all.len() && all[k] == i;
                    assert(before[k] == i);
                }
            }
        }
    }
}

} // verus!
