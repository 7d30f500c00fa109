//! Which cluster a memory joins, which clusters merge, and which are too loose.
use vstd::prelude::*;

use crate::ranking::{does_reach, is_short_of, MINUS_ONE};
use crate::text::copy_of;

verus! {

/// A cluster as an assignment reads it.
#[derive(Debug)]
pub struct ClusterInfo {
    pub id: String,
    /// Score of the similarity between the memory and the cluster's centroid.
    pub similarity: i64,
    pub member_count: usize,
}

/// Where a memory goes.
#[derive(Debug)]
pub enum ClusterAssignment {
    Existing(String),
    NewCluster,
}

/// The cluster among the first `n` that is most similar, the first of several; none unless it is more
/// similar than -1.
pub open spec fn closest(clusters: Seq<ClusterInfo>, n: nat) -> Option<int>
    decreases n,
{
    if n == 0 {
        None
    } else {
        let before = closest(clusters, (n - 1) as nat);
        let best = match before {
            Some(i) => clusters[i].similarity,
            None => MINUS_ONE,
        };
        if clusters[n - 1].similarity > best {
            Some(n - 1)
        } else {
            before
        }
    }
}

/// The closest cluster is at least as similar as every other, and more similar than those before it.
pub proof fn the_closest_is_the_best(clusters: Seq<ClusterInfo>, n: nat)
    requires
        n <= clusters.len(),
    ensures
        match closest(clusters, n) {
            Some(i) => {
                &&& 0 <= i < n
                &&& clusters[i].similarity > MINUS_ONE
                &&& forall|j: int|
                    0 <= j < n ==> (#[trigger] clusters[j]).similarity <= clusters[i].similarity
                &&& forall|j: int|
                    0 <= j < i ==> (#[trigger] clusters[j]).similarity < clusters[i].similarity
            },
            None => forall|j: int| 0 <= j < n ==> (#[trigger] clusters[j]).similarity <= MINUS_ONE,
        },
    decreases n,
{
    if n > 0 {
        the_closest_is_the_best(clusters, (n - 1) as nat);
    }
}

/// Finds the best matching cluster: the closest one where its similarity reaches the threshold, else
/// a new one.
pub fn assign_to_cluster(clusters: &Vec<ClusterInfo>, join_threshold: i64) -> (r: ClusterAssignment)
    ensures
        match closest(clusters@, clusters@.len()) {
            Some(i) => if crate::ranking::reaches(clusters@[i].similarity, join_threshold) {
                r matches ClusterAssignment::Existing(id) && id@ == clusters@[i].id@
            } else {
                r is NewCluster
            },
            None => r is NewCluster,
        },
{
    let mut best: Option<usize> = None;
    let mut best_similarity: i64 = MINUS_ONE;
    let mut k: usize = 0;
    while k < clusters.len()
        invariant
            k <= clusters@.len(),
            closest(clusters@, k as nat) == (match best {
                Some(i) => Some(i as int),
                None => None,
            }),
            best matches Some(i) ==> i < clusters@.len() && best_similarity
                == clusters@[i as int].similarity,
            best is None ==> best_similarity == MINUS_ONE,
        decreases clusters@.len() - k,
    {
        if clusters[k].similarity > best_similarity {
            best_similarity = clusters[k].similarity;
            best = Some(k);
        }
        k = k + 1;
    }
    match best {
        Some(i) => if does_reach(best_similarity, join_threshold) {
            ClusterAssignment::Existing(copy_of(clusters[i].id.as_str()))
        } else {
            ClusterAssignment::NewCluster
        },
        None => ClusterAssignment::NewCluster,
    }
}

/// What comes of comparing two clusters.
#[derive(Debug)]
pub enum MergeCheck {
    Merge { keep_id: String, remove_id: String },
    /// The clusters are distinct enough.
    Distinct,
}

/// The cluster that stays and the one that goes, where two clusters merge.
pub open spec fn merged(
    id_a: Seq<char>,
    count_a: usize,
    id_b: Seq<char>,
    count_b: usize,
    similarity: i64,
    merge_threshold: i64,
) -> Option<(Seq<char>, Seq<char>)> {
    if crate::ranking::short_of(similarity, merge_threshold) {
        None
    } else if count_a >= count_b {
        Some((id_a, id_b))
    } else {
        Some((id_b, id_a))
    }
}

impl MergeCheck {
    /// The cluster that stays and the one that goes.
    pub open spec fn outcome(self) -> Option<(Seq<char>, Seq<char>)> {
        match self {
            MergeCheck::Merge { keep_id, remove_id } => Some((keep_id@, remove_id@)),
            MergeCheck::Distinct => None,
        }
    }
}

/// The order in which two clusters are compared does not decide whether they merge, nor which of them
/// stays; only between two of one size does the first stay.
pub proof fn merging_is_symmetric(
    id_a: Seq<char>,
    count_a: usize,
    id_b: Seq<char>,
    count_b: usize,
    similarity: i64,
    merge_threshold: i64,
)
    ensures
        merged(id_a, count_a, id_b, count_b, similarity, merge_threshold) is Some <==> merged(
            id_b,
            count_b,
            id_a,
            count_a,
            similarity,
            merge_threshold,
        ) is Some,
        count_a != count_b ==> merged(id_a, count_a, id_b, count_b, similarity, merge_threshold)
            == merged(id_b, count_b, id_a, count_a, similarity, merge_threshold),
        count_a == count_b && !crate::ranking::short_of(similarity, merge_threshold) ==> merged(
            id_a,
            count_a,
            id_b,
            count_b,
            similarity,
            merge_threshold,
        ) == Some((id_a, id_b)) && merged(
            id_b,
            count_b,
            id_a,
            count_a,
            similarity,
            merge_threshold,
        ) == Some((id_b, id_a)),
{
}

/// Decides whether two clusters merge: they do where their centroids are as similar as the threshold,
/// and the one with more members stays, the first of two equal ones.
pub fn check_merge(
    id_a: &str,
    count_a: usize,
    id_b: &str,
    count_b: usize,
    similarity: i64,
    merge_threshold: i64,
) -> (r: MergeCheck)
    ensures
        r.outcome() == merged(id_a@, count_a, id_b@, count_b, similarity, merge_threshold),
{
    if is_short_of(similarity, merge_threshold) {
        MergeCheck::Distinct
    } else if count_a >= count_b {
        MergeCheck::Merge { keep_id: copy_of(id_a), remove_id: copy_of(id_b) }
    } else {
        MergeCheck::Merge { keep_id: copy_of(id_b), remove_id: copy_of(id_a) }
    }
}

/// The fewest members that a cluster is split with.
pub const MIN_SPLIT_MEMBERS: usize = 4;

/// Whether a cluster is too loose: it has enough members to split, and their average similarity to the
/// centroid does not reach the floor.
pub open spec fn too_loose(members: int, average: i64, cohesion_floor: i64) -> bool {
    members >= MIN_SPLIT_MEMBERS && !crate::ranking::reaches(average, cohesion_floor)
}

/// Whether a cluster is too loose.
pub fn is_too_loose(members: usize, average: i64, cohesion_floor: i64) -> (r: bool)
    ensures
        r == too_loose(members as int, average, cohesion_floor),
{
    members >= MIN_SPLIT_MEMBERS && !does_reach(average, cohesion_floor)
}

/// What comes of a look at a cluster's health.
#[derive(Debug)]
pub enum MaintenanceAction {
    /// Nothing to do.
    Healthy,
    /// The members are too diffuse: part them in two.
    Split { cluster_id: String },
}

/// Decides whether a cluster is split. `average` is the score of its members' average similarity to its
/// centroid.
pub fn check_cohesion(cluster_id: &str, members: usize, average: i64, cohesion_floor: i64) -> (r:
    MaintenanceAction)
    ensures
        too_loose(members as int, average, cohesion_floor) <==> r is Split,
        r matches MaintenanceAction::Split { cluster_id: id } ==> id@ == cluster_id@,
{
    if is_too_loose(members, average, cohesion_floor) {
        MaintenanceAction::Split { cluster_id: copy_of(cluster_id) }
    } else {
        MaintenanceAction::Healthy
    }
}

// ---------------------------------------------------------------------------
// Splitting
// ---------------------------------------------------------------------------
/// How often the two groups of a split are settled anew.
pub const SPLIT_ROUNDS: usize = 10;

/// The member other than the first, among the first `n`, that is farthest from the first; the second
/// one where none has a distance above -1.
pub open spec fn farthest(distances: Seq<i64>, n: nat) -> int
    decreases n,
{
    if n <= 1 {
        1
    } else {
        let before = farthest(distances, (n - 1) as nat);
        if distances[n - 1] > reach_of(distances, (n - 1) as nat) {
            n - 1
        } else {
            before
        }
    }
}

/// The greatest distance of a member other than the first, among the first `n`, and at least -1.
pub open spec fn reach_of(distances: Seq<i64>, n: nat) -> i64
    decreases n,
{
    if n <= 1 {
        MINUS_ONE
    } else {
        let before = reach_of(distances, (n - 1) as nat);
        if distances[n - 1] > before {
            distances[n - 1]
        } else {
            before
        }
    }
}

/// The second group starts from a member that no other is farther away than.
pub proof fn the_farthest_is_the_farthest(distances: Seq<i64>, n: nat)
    requires
        2 <= n <= distances.len(),
    ensures
        1 <= farthest(distances, n) < n,
        forall|j: int|
            1 <= j < n ==> (#[trigger] distances[j]) <= reach_of(distances, n),
        reach_of(distances, n) > MINUS_ONE ==> reach_of(distances, n) == distances[farthest(
            distances,
            n,
        )],
    decreases n,
{
    if n > 2 {
        the_farthest_is_the_farthest(distances, (n - 1) as nat);
    } else {
        assert(farthest(distances, 1) == 1);
        assert(reach_of(distances, 1) == MINUS_ONE);
    }
}

/// The member from which the second group of a split starts. `distances` holds the score of each
/// member's distance from the first.
pub fn second_seed(distances: &Vec<i64>) -> (r: usize)
    requires
        distances@.len() >= 2,
    ensures
        r == farthest(distances@, distances@.len()),
        1 <= r < distances@.len(),
{
    let mut far: usize = 1;
    let mut reach: i64 = MINUS_ONE;
    let mut i: usize = 1;
    while i < distances.len()
        invariant
            1 <= i <= distances@.len(),
            distances@.len() >= 2,
            1 <= far < distances@.len(),
            far == farthest(distances@, i as nat),
            reach == reach_of(distances@, i as nat),
        decreases distances@.len() - i,
    {
        if distances[i] > reach {
            reach = distances[i];
            far = i;
        }
        i = i + 1;
    }
    far
}

/// The two groups of a split, as places among the members.
#[derive(Debug)]
pub struct Groups {
    pub group_a: Vec<usize>,
    pub group_b: Vec<usize>,
}

/// The members among the first `n` that are on one side: those that are at least as similar to the
/// first group are on its side, all others on the side of the second.
pub open spec fn side(to_a: Seq<i64>, to_b: Seq<i64>, first: bool, n: nat) -> Seq<int>
    decreases n,
{
    if n == 0 {
        seq![]
    } else {
        let before = side(to_a, to_b, first, (n - 1) as nat);
        if crate::ranking::reaches(to_a[n - 1], to_b[n - 1]) == first {
            before.push(n - 1)
        } else {
            before
        }
    }
}

/// A split loses no member and puts none on both sides, and each side is in the members' order.
pub proof fn a_split_parts_the_members(to_a: Seq<i64>, to_b: Seq<i64>, n: nat)
    ensures
        side(to_a, to_b, true, n).len() + side(to_a, to_b, false, n).len() == n,
        forall|i: int|
            0 <= i < n ==> (side(to_a, to_b, true, n).contains(i) <==> !(#[trigger] side(
                to_a,
                to_b,
                false,
                n,
            ).contains(i))),
        forall|first: bool, i: int|
            0 <= i < side(to_a, to_b, first, n).len() ==> 0 <= #[trigger] side(
                to_a,
                to_b,
                first,
                n,
            )[i] < n,
        forall|first: bool, i: int, j: int|
            0 <= i < j < side(to_a, to_b, first, n).len() ==> #[trigger] side(
                to_a,
                to_b,
                first,
                n,
            )[i] < #[trigger] side(to_a, to_b, first, n)[j],
    decreases n,
{
    if n > 0 {
        a_split_parts_the_members(to_a, to_b, (n - 1) as nat);
        let m = (n - 1) as nat;
        let a = side(to_a, to_b, true, m);
        let b = side(to_a, to_b, false, m);
        let a1 = side(to_a, to_b, true, n);
        let b1 = side(to_a, to_b, false, n);
        assert forall|i: int| 0 <= i < n implies (a1.contains(i) <==> !(#[trigger] b1.contains(i))) by {
            if a.contains(i) {
                let k = choose|k: int| 0 <= k < a.len() && a[k] == i;
                assert(a1[k] == i);
            }
            if b.contains(i) {
                let k = choose|k: int| 0 <= k < b.len() && b[k] == i;
                assert(b1[k] == i);
            }
            if a1.contains(i) {
                let k = choose|k: int| 0 <= k < a1.len() && a1[k] == i;
                if k < a.len() {
                    assert(a[k] == i);
                }
            }
            if b1.contains(i) {
                let k = choose|k: int| 0 <= k < b1.len() && b1[k] == i;
                if k < b.len() {
                    assert(b[k] == i);
                }
            }
            if i == m {
                if crate::ranking::reaches(to_a[m as int], to_b[m as int]) {
                    assert(a1[a1.len() - 1] == i);
                } else {
                    assert(b1[b1.len() - 1] == i);
                }
            } else {
                assert(b.contains(i) || a.contains(i));
            }
        }
    }
}

/// Parts the members of a cluster by which of two centres each is more similar to, the first one on a
/// tie.
pub fn split_members(to_a: &Vec<i64>, to_b: &Vec<i64>) -> (r: Groups)
    requires
        to_a@.len() == to_b@.len(),
    ensures
        crate::ranking::positions(r.group_a@) == side(to_a@, to_b@, true, to_a@.len()),
        crate::ranking::positions(r.group_b@) == side(to_a@, to_b@, false, to_a@.len()),
{
    let mut group_a: Vec<usize> = Vec::new();
    let mut group_b: Vec<usize> = Vec::new();
    let mut k: usize = 0;
    assert(crate::ranking::positions(group_a@) =~= seq![]);
    assert(crate::ranking::positions(group_b@) =~= seq![]);
    while k < to_a.len()
        invariant
            k <= to_a@.len(),
            to_a@.len() == to_b@.len(),
            crate::ranking::positions(group_a@) == side(to_a@, to_b@, true, k as nat),
            crate::ranking::positions(group_b@) == side(to_a@, to_b@, false, k as nat),
        decreases to_a@.len() - k,
    {
        if does_reach(to_a[k], to_b[k]) {
            assert(crate::ranking::positions(group_a@.push(k)) =~= crate::ranking::positions(
                group_a@,
            ).push(k as int));
            group_a.push(k);
        } else {
            assert(crate::ranking::positions(group_b@.push(k)) =~= crate::ranking::positions(
                group_b@,
            ).push(k as int));
            group_b.push(k);
        }
        k = k + 1;
    }
    Groups { group_a, group_b }
}

/// One round of a split: the groups as they now are, and what follows.
#[derive(Debug)]
pub struct SplitRound {
    pub groups: Groups,
    /// Move the first centre to the mean of its group; that of an empty group stays where it is.
    pub recentre_a: bool,
    /// Move the second centre to the mean of its group; that of an empty group stays where it is.
    pub recentre_b: bool,
    /// The number of the next round; after the last one there is none.
    pub next: Option<usize>,
}

/// A round of a split, given how similar each member is to the two centres. Rounds are numbered from
/// zero.
pub fn split_round(round: usize, to_a: &Vec<i64>, to_b: &Vec<i64>) -> (r: SplitRound)
    requires
        to_a@.len() == to_b@.len(),
    ensures
        crate::ranking::positions(r.groups.group_a@) == side(to_a@, to_b@, true, to_a@.len()),
        crate::ranking::positions(r.groups.group_b@) == side(to_a@, to_b@, false, to_a@.len()),
        r.recentre_a == (side(to_a@, to_b@, true, to_a@.len()).len() > 0),
        r.recentre_b == (side(to_a@, to_b@, false, to_a@.len()).len() > 0),
        round + 1 < SPLIT_ROUNDS ==> r.next == Some((round + 1) as usize),
        round + 1 >= SPLIT_ROUNDS ==> r.next is None,
        r.next is Some <==> round < 9,
        forall|k: int|
            #![trigger to_a@[k]]
            0 <= k < to_a@.len() && to_a@[k] != i64::MIN && to_b@[k] != i64::MIN ==> {
                let in_a = crate::ranking::positions(r.groups.group_a@).contains(k);
                let in_b = crate::ranking::positions(r.groups.group_b@).contains(k);
                &&& in_a <==> to_a@[k] >= to_b@[k]
                &&& in_b <==> to_a@[k] < to_b@[k]
            },
{
    let groups = split_members(to_a, to_b);
    assert(crate::ranking::positions(groups.group_a@).len() == groups.group_a@.len());
    assert(crate::ranking::positions(groups.group_b@).len() == groups.group_b@.len());
    let recentre_a = groups.group_a.len() > 0;
    let recentre_b = groups.group_b.len() > 0;
    let next = if round < SPLIT_ROUNDS - 1 {
        Some(round + 1)
    } else {
        None
    };
    proof {
        assert forall|k: int|
            #![trigger to_a@[k]]
            0 <= k < to_a@.len() && to_a@[k] != i64::MIN && to_b@[k] != i64::MIN implies {
            let in_a = crate::ranking::positions(groups.group_a@).contains(k);
            let in_b = crate::ranking::positions(groups.group_b@).contains(k);
            &&& in_a <==> to_a@[k] >= to_b@[k]
            &&& in_b <==> to_a@[k] < to_b@[k]
        } by {
            crate::laws::clusters::members_go_to_the_nearer_centre(to_a@, to_b@, to_a@.len(), k);
        }
    }
    SplitRound { groups, recentre_a, recentre_b, next }
}

// ---------------------------------------------------------------------------
// Activation
// ---------------------------------------------------------------------------
/// Which neighbours an access warms, among the first `n`: those within the hop limit whose share of
/// heat is more than negligible.
pub open spec fn warmed(hops: Seq<u32>, heat: Seq<i64>, max_hops: u32, negligible: i64, n: nat) -> Seq<
    int,
>
    decreases n,
{
    if n == 0 {
        seq![]
    } else {
        let before = warmed(hops, heat, max_hops, negligible, (n - 1) as nat);
        if hops[n - 1] <= max_hops && heat[n - 1] > negligible {
            before.push(n - 1)
        } else {
            before
        }
    }
}

/// Which neighbours an access warms, in their order. `heat` holds the score of each neighbour's share.
pub fn compute_activation_targets(
    hops: &Vec<u32>,
    heat: &Vec<i64>,
    max_hops: u32,
    negligible: i64,
) -> (r: Vec<usize>)
    requires
        hops@.len() == heat@.len(),
    ensures
        crate::ranking::positions(r@) == warmed(hops@, heat@, max_hops, negligible, hops@.len()),
{
    let mut r: Vec<usize> = Vec::new();
    let mut k: usize = 0;
    assert(crate::ranking::positions(r@) =~= seq![]);
    while k < hops.len()
        invariant
            k <= hops@.len(),
            hops@.len() == heat@.len(),
            crate::ranking::positions(r@) == warmed(hops@, heat@, max_hops, negligible, k as nat),
        decreases hops@.len() - k,
    {
        if hops[k] <= max_hops && heat[k] > negligible {
            assert(crate::ranking::positions(r@.push(k)) =~= crate::ranking::positions(r@).push(
                k as int,
            ));
            r.push(k);
        }
        k = k + 1;
    }
    r
}

} // verus!
