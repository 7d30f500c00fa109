//! What recall is for: the clusters that hold the best memories, and the best memories of one.
use vstd::prelude::*;

use crate::laws::ranking::a_ranking_is_the_best_in_order;
use crate::ranking::ranking;
use crate::recall::{
    best_member, eligible, holds_members, rank_key, rank_keys, recalled, shows_cluster,
    similarities, BroadRecallResult, ClusterMatch, ClusterWithMembers, FactSummary,
    FocusedRecallResult, MemoryResult,
};

verus! {

/// The memories that stand for a list are its most similar ones, each shown as it is: as many as the
/// limit allows, none twice, a more similar one first and of equally similar ones the earlier. No memory
/// that is left out is more similar than one that is shown.
pub proof fn the_most_similar_memories_are_found(
    members: Seq<FactSummary>,
    limit: nat,
    found: Seq<MemoryResult>,
)
    requires
        holds_members(found, members, ranking(similarities(members), limit)),
    ensures
        found.len() == (if members.len() <= limit {
            members.len()
        } else {
            limit
        }),
        forall|i: int|
            0 <= i < found.len() ==> {
                let m = #[trigger] found[i];
                &&& m.member < members.len()
                &&& m.id@ == members[m.member as int].id@
                &&& m.content@ == members[m.member as int].content@
                &&& m.similarity == members[m.member as int].similarity
            },
        forall|i: int, j: int|
            0 <= i < j < found.len() ==> {
                let a = #[trigger] found[i];
                let b = #[trigger] found[j];
                a.similarity > b.similarity || (a.similarity == b.similarity && a.member < b.member)
            },
        forall|i: int, k: int|
            0 <= i < found.len() && 0 <= k < members.len() && (forall|j: int|
                0 <= j < found.len() ==> (#[trigger] found[j]).member != k) ==> (
            #[trigger] found[i]).similarity >= (#[trigger] members[k]).similarity,
{
    let s = similarities(members);
    let at = ranking(s, limit);
    a_ranking_is_the_best_in_order(s, limit);
    assert forall|i: int| 0 <= i < found.len() implies {
        let m = #[trigger] found[i];
        &&& m.member < members.len()
        &&& m.id@ == members[m.member as int].id@
        &&& m.content@ == members[m.member as int].content@
        &&& m.similarity == members[m.member as int].similarity
    } by {
        assert(0 <= at[i] < s.len());
        assert(found[i].member == at[i]);
    }
    assert forall|i: int, j: int| 0 <= i < j < found.len() implies {
        let a = #[trigger] found[i];
        let b = #[trigger] found[j];
        a.similarity > b.similarity || (a.similarity == b.similarity && a.member < b.member)
    } by {
        assert(found[i].member == at[i] && found[j].member == at[j]);
        assert(s[at[i]] == members[at[i]].similarity);
        assert(s[at[j]] == members[at[j]].similarity);
    }
    assert forall|i: int, k: int|
        0 <= i < found.len() && 0 <= k < members.len() && (forall|j: int|
            0 <= j < found.len() ==> (#[trigger] found[j]).member != k) implies (
    #[trigger] found[i]).similarity >= (#[trigger] members[k]).similarity by {
        assert(!at.contains(k)) by {
            if at.contains(k) {
                let j = choose|j: int| 0 <= j < at.len() && at[j] == k;
                assert(found[j].member == at[j]);
            }
        }
        assert(found[i].member == at[i]);
        assert(s[k] == members[k].similarity);
        assert(s[at[i]] == members[at[i]].similarity);
    }
}

/// The first memory found is the most similar one, and of equally similar ones the first.
pub proof fn the_first_found_is_the_best(
    members: Seq<FactSummary>,
    limit: nat,
    found: Seq<MemoryResult>,
)
    requires
        limit > 0,
        members.len() > 0,
        holds_members(found, members, ranking(similarities(members), limit)),
    ensures
        found.len() > 0,
        found[0].member < members.len(),
        found[0].similarity == members[found[0].member as int].similarity,
        forall|k: int|
            0 <= k < members.len() ==> (#[trigger] members[k]).similarity <= found[0].similarity,
        forall|k: int|
            0 <= k < found[0].member ==> (#[trigger] members[k]).similarity < found[0].similarity,
{
    let s = similarities(members);
    let at = ranking(s, limit);
    the_most_similar_memories_are_found(members, limit, found);
    a_ranking_is_the_best_in_order(s, limit);
    assert forall|k: int| 0 <= k < members.len() implies (#[trigger] members[k]).similarity
        <= found[0].similarity && (k < found[0].member ==> members[k].similarity
        < found[0].similarity) by {
        assert(s[k] == members[k].similarity);
        assert(found[0].member == at[0]);
        assert(s[at[0]] == found[0].similarity);
        if at.contains(k) {
            let j = choose|j: int| 0 <= j < at.len() && at[j] == k;
            if j > 0 {
                assert(s[at[0]] > s[at[j]] || (s[at[0]] == s[at[j]] && at[0] < at[j]));
            }
        } else {
            assert(s[at[0]] > s[k] || (s[at[0]] == s[k] && at[0] < k));
        }
    }
}

/// A member that no other is more similar than, the first of those, is what a cluster is ranked by.
proof fn lemma_leader(c: ClusterWithMembers, m: int)
    requires
        0 <= m < c.members@.len(),
        forall|k: int|
            0 <= k < c.members@.len() ==> (#[trigger] c.members@[k]).similarity
                <= c.members@[m].similarity,
        forall|k: int|
            0 <= k < m ==> (#[trigger] c.members@[k]).similarity < c.members@[m].similarity,
    ensures
        best_member(c) == c.members@[m],
        rank_key(c) == c.members@[m].weighted,
{
    let s = similarities(c.members@);
    let at = ranking(s, 3);
    a_ranking_is_the_best_in_order(s, 3);
    assert(s[m] == c.members@[m].similarity);
    assert(0 <= at[0] < s.len());
    assert(s[at[0]] == c.members@[at[0]].similarity);
    if at[0] != m {
        if at.contains(m) {
            let j = choose|j: int| 0 <= j < at.len() && at[j] == m;
            assert(s[at[0]] > s[at[j]] || (s[at[0]] == s[at[j]] && at[0] < at[j]));
        } else {
            assert(s[at[0]] > s[m] || (s[at[0]] == s[m] && at[0] < m));
        }
    }
}

proof fn lemma_eligible_all(clusters: Seq<ClusterWithMembers>, floor: i64, n: nat)
    requires
        n <= clusters.len(),
    ensures
        forall|i: int|
            0 <= i < eligible(clusters, floor, n).len() ==> {
                let c = #[trigger] eligible(clusters, floor, n)[i];
                &&& 0 <= c < n
                &&& clusters[c].members@.len() > 0
                &&& clusters[c].similarity >= floor || clusters[c].similarity == i64::MIN || floor
                    == i64::MIN
            },
        forall|i: int, j: int|
            0 <= i < j < eligible(clusters, floor, n).len() ==> #[trigger] eligible(
                clusters,
                floor,
                n,
            )[i] < #[trigger] eligible(clusters, floor, n)[j],
        forall|c: int|
            0 <= c < n && (#[trigger] clusters[c]).members@.len() > 0 && (clusters[c].similarity
                >= floor || clusters[c].similarity == i64::MIN || floor == i64::MIN) ==> eligible(
                clusters,
                floor,
                n,
            ).contains(c),
    decreases n,
{
    if n > 0 {
        lemma_eligible_all(clusters, floor, (n - 1) as nat);
        let before = eligible(clusters, floor, (n - 1) as nat);
        let all = eligible(clusters, floor, n);
        assert forall|c: int|
            0 <= c < n && (#[trigger] clusters[c]).members@.len() > 0 && (clusters[c].similarity
                >= floor || clusters[c].similarity == i64::MIN || floor
                == i64::MIN) implies all.contains(c) by {
            if c < n - 1 {
                assert(before.contains(c));
                let k = choose|k: int| 0 <= k < before.len() && before[k] == c;
                assert(all[k] == c);
            } else {
                assert(all[before.len() as int] == c);
            }
        }
    }
}

/// A broad recall shows clusters that were searched, none twice, each with a memory in it and a centroid
/// that is not below the floor, and never more than the limit. A shown cluster is as similar as its most
/// similar member, and up to three of its members stand for it, the most similar ones.
pub proof fn found_clusters_qualify(
    clusters: Seq<ClusterWithMembers>,
    limit: nat,
    floor: i64,
    r: Seq<ClusterMatch>,
)
    requires
        r.len() == recalled(clusters, limit, floor).len(),
        forall|i: int|
            0 <= i < r.len() ==> shows_cluster(
                #[trigger] r[i],
                clusters,
                recalled(clusters, limit, floor)[i],
            ),
    ensures
        r.len() <= limit,
        forall|i: int|
            0 <= i < r.len() ==> {
                let c = clusters[(#[trigger] r[i]).cluster as int];
                &&& r[i].cluster < clusters.len()
                &&& r[i].cluster_id@ == c.id@
                &&& c.members@.len() > 0
                &&& c.similarity >= floor || c.similarity == i64::MIN || floor == i64::MIN
                &&& forall|k: int|
                    0 <= k < c.members@.len() ==> (#[trigger] c.members@[k]).similarity
                        <= r[i].similarity
                &&& exists|k: int|
                    0 <= k < c.members@.len() && (#[trigger] c.members@[k]).similarity
                        == r[i].similarity
                &&& holds_members(
                    r[i].representative_memories@,
                    c.members@,
                    ranking(similarities(c.members@), 3),
                )
                &&& r[i].representative_memories@.len() == (if c.members@.len() <= 3 {
                    c.members@.len()
                } else {
                    3
                })
            },
        forall|i: int, j: int|
            0 <= i < j < r.len() ==> (#[trigger] r[i]).cluster != (#[trigger] r[j]).cluster,
{
    let at = eligible(clusters, floor, clusters.len());
    let keys = rank_keys(clusters, at);
    let best = ranking(keys, limit);
    let found = recalled(clusters, limit, floor);
    lemma_eligible_all(clusters, floor, clusters.len());
    a_ranking_is_the_best_in_order(keys, limit);
    assert(forall|i: int| 0 <= i < found.len() ==> #[trigger] found[i] == at[best[i]]);
    assert forall|i: int| 0 <= i < r.len() implies {
        let c = clusters[(#[trigger] r[i]).cluster as int];
        &&& r[i].cluster < clusters.len()
        &&& r[i].cluster_id@ == c.id@
        &&& c.members@.len() > 0
        &&& c.similarity >= floor || c.similarity == i64::MIN || floor == i64::MIN
        &&& forall|k: int|
            0 <= k < c.members@.len() ==> (#[trigger] c.members@[k]).similarity <= r[i].similarity
        &&& exists|k: int|
            0 <= k < c.members@.len() && (#[trigger] c.members@[k]).similarity == r[i].similarity
        &&& holds_members(
            r[i].representative_memories@,
            c.members@,
            ranking(similarities(c.members@), 3),
        )
        &&& r[i].representative_memories@.len() == (if c.members@.len() <= 3 {
            c.members@.len()
        } else {
            3
        })
    } by {
        assert(shows_cluster(r[i], clusters, found[i]));
        assert(0 <= best[i] < keys.len());
        assert(found[i] == at[best[i]]);
        let c = clusters[found[i]];
        let s = similarities(c.members@);
        let shown = ranking(s, 3);
        a_ranking_is_the_best_in_order(s, 3);
        assert(0 <= shown[0] < s.len());
        assert(best_member(c) == c.members@[shown[0]]);
        assert forall|k: int| 0 <= k < c.members@.len() implies (
        #[trigger] c.members@[k]).similarity <= r[i].similarity by {
            assert(s[k] == c.members@[k].similarity);
            assert(s[shown[0]] == c.members@[shown[0]].similarity);
            if shown.contains(k) {
                let j = choose|j: int| 0 <= j < shown.len() && shown[j] == k;
                if j > 0 {
                    assert(s[shown[0]] >= s[shown[j]]);
                }
            } else {
                assert(s[shown[0]] >= s[k]);
            }
        }
        assert(c.members@[shown[0]].similarity == r[i].similarity);
    }
    assert forall|i: int, j: int| 0 <= i < j < r.len() implies (#[trigger] r[i]).cluster != (
    #[trigger] r[j]).cluster by {
        assert(shows_cluster(r[i], clusters, found[i]) && shows_cluster(r[j], clusters, found[j]));
        assert(found[i] == at[best[i]] && found[j] == at[best[j]]);
        assert(0 <= best[i] < at.len() && 0 <= best[j] < at.len());
        assert(best[i] != best[j]);
        if best[i] < best[j] {
            assert(at[best[i]] < at[best[j]]);
        } else {
            assert(at[best[j]] < at[best[i]]);
        }
    }
}

/// Of two clusters that are found, the one whose most similar member weighs more, by similarity times
/// heat, stands first; of equal ones the earlier. `m` and `n` are these members, each the first of those
/// that no other member of its cluster is more similar than.
pub proof fn clusters_rank_by_their_most_similar_member(
    clusters: Seq<ClusterWithMembers>,
    limit: nat,
    floor: i64,
    r: Seq<ClusterMatch>,
    i: int,
    j: int,
    m: int,
    n: int,
)
    requires
        r.len() == recalled(clusters, limit, floor).len(),
        forall|i: int|
            0 <= i < r.len() ==> shows_cluster(
                #[trigger] r[i],
                clusters,
                recalled(clusters, limit, floor)[i],
            ),
        0 <= i < r.len(),
        0 <= j < r.len(),
        ({
            let c = clusters[r[i].cluster as int].members@;
            &&& 0 <= m < c.len()
            &&& forall|k: int| 0 <= k < c.len() ==> (#[trigger] c[k]).similarity <= c[m].similarity
            &&& forall|k: int| 0 <= k < m ==> (#[trigger] c[k]).similarity < c[m].similarity
        }),
        ({
            let d = clusters[r[j].cluster as int].members@;
            &&& 0 <= n < d.len()
            &&& forall|k: int| 0 <= k < d.len() ==> (#[trigger] d[k]).similarity <= d[n].similarity
            &&& forall|k: int| 0 <= k < n ==> (#[trigger] d[k]).similarity < d[n].similarity
        }),
    ensures
        ({
            let x = clusters[r[i].cluster as int].members@[m].weighted;
            let y = clusters[r[j].cluster as int].members@[n].weighted;
            &&& x > y ==> i < j
            &&& x == y && r[i].cluster < r[j].cluster ==> i < j
        }),
{
    let at = eligible(clusters, floor, clusters.len());
    let keys = rank_keys(clusters, at);
    let best = ranking(keys, limit);
    let found = recalled(clusters, limit, floor);
    lemma_eligible_all(clusters, floor, clusters.len());
    a_ranking_is_the_best_in_order(keys, limit);
    assert(shows_cluster(r[i], clusters, found[i]) && shows_cluster(r[j], clusters, found[j]));
    assert(found[i] == at[best[i]] && found[j] == at[best[j]]);
    assert(0 <= best[i] < at.len() && 0 <= best[j] < at.len());
    lemma_leader(clusters[found[i]], m);
    lemma_leader(clusters[found[j]], n);
    assert(keys[best[i]] == rank_key(clusters[found[i]]));
    assert(keys[best[j]] == rank_key(clusters[found[j]]));
    if j < i {
        assert(keys[best[j]] > keys[best[i]] || (keys[best[j]] == keys[best[i]] && best[j]
            < best[i]));
        if best[j] < best[i] {
            assert(at[best[j]] < at[best[i]]);
        }
    }
}

/// Every cluster with a memory in it whose centroid is not below the floor is found, unless the limit is
/// reached by clusters whose most similar members weigh no less. `m` and `n` are the most similar members
/// of a cluster that is found and of one that is not.
pub proof fn only_lesser_clusters_are_left_out(
    clusters: Seq<ClusterWithMembers>,
    limit: nat,
    floor: i64,
    r: Seq<ClusterMatch>,
    c: int,
    i: int,
    m: int,
    n: int,
)
    requires
        r.len() == recalled(clusters, limit, floor).len(),
        forall|i: int|
            0 <= i < r.len() ==> shows_cluster(
                #[trigger] r[i],
                clusters,
                recalled(clusters, limit, floor)[i],
            ),
        0 <= c < clusters.len(),
        clusters[c].members@.len() > 0,
        clusters[c].similarity >= floor || clusters[c].similarity == i64::MIN || floor == i64::MIN,
        forall|k: int| 0 <= k < r.len() ==> (#[trigger] r[k]).cluster != c,
    ensures
        r.len() == limit,
        ({
            let x = clusters[r[i].cluster as int].members@;
            let y = clusters[c].members@;
            &&& 0 <= i < r.len()
            &&& 0 <= m < x.len()
            &&& forall|k: int| 0 <= k < x.len() ==> (#[trigger] x[k]).similarity <= x[m].similarity
            &&& forall|k: int| 0 <= k < m ==> (#[trigger] x[k]).similarity < x[m].similarity
            &&& 0 <= n < y.len()
            &&& forall|k: int| 0 <= k < y.len() ==> (#[trigger] y[k]).similarity <= y[n].similarity
            &&& forall|k: int| 0 <= k < n ==> (#[trigger] y[k]).similarity < y[n].similarity
        }) ==> clusters[r[i].cluster as int].members@[m].weighted >= clusters[c].members@[n].weighted,
{
    let at = eligible(clusters, floor, clusters.len());
    let keys = rank_keys(clusters, at);
    let best = ranking(keys, limit);
    let found = recalled(clusters, limit, floor);
    lemma_eligible_all(clusters, floor, clusters.len());
    a_ranking_is_the_best_in_order(keys, limit);
    assert(at.contains(c));
    let x = choose|x: int| 0 <= x < at.len() && at[x] == c;
    assert(!best.contains(x)) by {
        if best.contains(x) {
            let k = choose|k: int| 0 <= k < best.len() && best[k] == x;
            assert(found[k] == at[best[k]]);
            assert(shows_cluster(r[k], clusters, found[k]));
        }
    }
    if 0 <= i < r.len() {
        let u = clusters[r[i].cluster as int].members@;
        let v = clusters[c].members@;
        assert(shows_cluster(r[i], clusters, found[i]));
        assert(found[i] == at[best[i]]);
        assert(keys[best[i]] == rank_key(clusters[found[i]]));
        assert(keys[x] == rank_key(clusters[c]));
        if (0 <= m < u.len() && (forall|k: int|
            0 <= k < u.len() ==> (#[trigger] u[k]).similarity <= u[m].similarity) && (forall|k: int|
            0 <= k < m ==> (#[trigger] u[k]).similarity < u[m].similarity) && 0 <= n < v.len() && (
        forall|k: int| 0 <= k < v.len() ==> (#[trigger] v[k]).similarity <= v[n].similarity) && (
        forall|k: int| 0 <= k < n ==> (#[trigger] v[k]).similarity < v[n].similarity)) {
            lemma_leader(clusters[found[i]], m);
            lemma_leader(clusters[c], n);
        }
    }
}

/// A recall over all clusters shows five of them, or all that qualify where these are fewer.
pub proof fn a_broad_recall_shows_five_clusters(
    clusters: Seq<ClusterWithMembers>,
    floor: i64,
    r: BroadRecallResult,
    c: int,
)
    requires
        r.clusters@.len() == recalled(
            clusters,
            crate::recall::RECALL_CLUSTERS as nat,
            floor,
        ).len(),
        forall|i: int|
            0 <= i < r.clusters@.len() ==> shows_cluster(
                #[trigger] r.clusters@[i],
                clusters,
                recalled(clusters, crate::recall::RECALL_CLUSTERS as nat, floor)[i],
            ),
    ensures
        r.clusters@.len() <= 5,
        r.clusters@.len() < 5 && 0 <= c < clusters.len() && clusters[c].members@.len() > 0
            && clusters[c].similarity >= floor ==> exists|i: int|
            0 <= i < r.clusters@.len() && (#[trigger] r.clusters@[i]).cluster == c,
{
    found_clusters_qualify(
        clusters,
        crate::recall::RECALL_CLUSTERS as nat,
        floor,
        r.clusters@,
    );
    if r.clusters@.len() < 5 && 0 <= c < clusters.len() && clusters[c].members@.len() > 0
        && clusters[c].similarity >= floor && !(exists|i: int|
        0 <= i < r.clusters@.len() && (#[trigger] r.clusters@[i]).cluster == c) {
        only_lesser_clusters_are_left_out(
            clusters,
            crate::recall::RECALL_CLUSTERS as nat,
            floor,
            r.clusters@,
            c,
            0,
            0,
            0,
        );
    }
}

/// A focused recall returns the ten most similar memories of its cluster, or all of them where these are
/// fewer, the most similar first.
pub proof fn a_focused_recall_returns_the_best_ten(
    cluster: ClusterWithMembers,
    r: FocusedRecallResult,
)
    requires
        holds_members(
            r.memories@,
            cluster.members@,
            ranking(similarities(cluster.members@), crate::recall::FOCUSED_LIMIT as nat),
        ),
    ensures
        r.memories@.len() == (if cluster.members@.len() <= 10 {
            cluster.members@.len()
        } else {
            10
        }),
        forall|i: int, j: int|
            0 <= i < j < r.memories@.len() ==> (#[trigger] r.memories@[i]).similarity >= (
            #[trigger] r.memories@[j]).similarity && r.memories@[i].member != r.memories@[j].member,
        forall|i: int, k: int|
            0 <= i < r.memories@.len() && 0 <= k < cluster.members@.len() && (forall|j: int|
                0 <= j < r.memories@.len() ==> (#[trigger] r.memories@[j]).member != k) ==> (
            #[trigger] r.memories@[i]).similarity >= (#[trigger] cluster.members@[k]).similarity,
        forall|i: int|
            0 <= i < r.memories@.len() ==> {
                let m = #[trigger] r.memories@[i];
                &&& m.member < cluster.members@.len()
                &&& m.id@ == cluster.members@[m.member as int].id@
                &&& m.content@ == cluster.members@[m.member as int].content@
                &&& m.similarity == cluster.members@[m.member as int].similarity
            },
{
    the_most_similar_memories_are_found(cluster.members@, 10, r.memories@);
}

} // verus!
