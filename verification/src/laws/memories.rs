//! What retrieving, storing and updating memories is for.
use vstd::prelude::*;

use crate::clusters::ClusterInfo;
use crate::laws::ranking::a_ranking_is_the_best_in_order;
use crate::memories::{
    at_least, first_known, first_with_id, ids_at, limit_of, placement_of, retrieved, shows_facts,
    updates, warms, Fact, Placement, Retrieval, RetrieveOptions, Retrieved, UpdateMemoryParams,
    UpdatePlan,
};
use crate::ranking::{first_of, ranking};
use crate::text::texts;

verus! {

// ---------------------------------------------------------------------------
// Retrieval
// ---------------------------------------------------------------------------
proof fn lemma_at_least(r: Seq<int>, scores: Seq<i64>, floor: i64) -> (from: Seq<int>)
    ensures
        from.len() == at_least(r, scores, floor).len(),
        forall|i: int|
            0 <= i < from.len() ==> {
                &&& 0 <= #[trigger] from[i] < r.len()
                &&& at_least(r, scores, floor)[i] == r[from[i]]
                &&& scores[r[from[i]]] >= floor
                &&& scores[r[from[i]]] != i64::MIN
                &&& floor != i64::MIN
            },
        forall|i: int, j: int| 0 <= i < j < from.len() ==> #[trigger] from[i] < #[trigger] from[j],
        forall|k: int|
            0 <= k < r.len() && scores[#[trigger] r[k]] >= floor && scores[r[k]] != i64::MIN
                && floor != i64::MIN ==> from.contains(k),
    decreases r.len(),
{
    if r.len() == 0 {
        seq![]
    } else {
        let front = r.drop_last();
        let before = lemma_at_least(front, scores, floor);
        let last = r.len() - 1;
        let from = if at_least(r, scores, floor).len() > before.len() {
            before.push(last)
        } else {
            before
        };
        assert forall|k: int|
            0 <= k < r.len() && scores[#[trigger] r[k]] >= floor && scores[r[k]] != i64::MIN
                && floor != i64::MIN implies from.contains(k) by {
            if k < last {
                assert(front[k] == r[k]);
                assert(before.contains(k));
                let i = choose|i: int| 0 <= i < before.len() && before[i] == k;
                assert(from[i] == k);
            } else {
                assert(from[before.len() as int] == k);
            }
        }
        from
    }
}

/// A retrieval returns at most as many memories as were asked for, ten where no number was given. Each is
/// shown as it is stored; a more similar one comes first, and none comes twice. Where the floor applies
/// none is below it.
pub proof fn a_retrieval_returns_the_best_first(
    asked: Option<usize>,
    facts: Seq<Fact>,
    scores: Seq<i64>,
    floor: i64,
    options: RetrieveOptions,
    r: Seq<Retrieved>,
)
    requires
        facts.len() == scores.len(),
        shows_facts(r, facts, scores, retrieved(scores, limit_of(asked), floor, options)),
    ensures
        asked matches Some(n) ==> r.len() <= n,
        asked is None ==> r.len() <= 10,
        forall|i: int|
            0 <= i < r.len() ==> {
                let m = #[trigger] r[i];
                let f = facts[m.fact as int];
                &&& m.fact < facts.len()
                &&& m.similarity == scores[m.fact as int]
                &&& m.content@ == f.content@
                &&& f.id matches Some(id) ==> m.id@ == id@
                &&& m.tags@.len() == f.tags@.len()
                &&& texts(m.tags@) == texts(f.tags@)
                &&& options.apply_floor ==> m.similarity >= floor && m.similarity != i64::MIN
            },
        forall|i: int, j: int|
            0 <= i < j < r.len() ==> {
                let a = #[trigger] r[i];
                let b = #[trigger] r[j];
                a.similarity > b.similarity || (a.similarity == b.similarity && a.fact < b.fact)
            },
{
    let limit = limit_of(asked);
    let window = ranking(scores, limit);
    a_ranking_is_the_best_in_order(scores, limit);
    let at = retrieved(scores, limit, floor, options);
    let from = lemma_at_least(window, scores, floor);
    let whole = Seq::new(window.len(), |i: int| i);
    let pick = if options.apply_floor {
        from
    } else {
        whole
    };
    assert(forall|i: int| 0 <= i < at.len() ==> 0 <= #[trigger] pick[i] < window.len());
    assert(forall|i: int| 0 <= i < at.len() ==> at[i] == window[#[trigger] pick[i]]);
    assert forall|i: int| 0 <= i < r.len() implies {
        let m = #[trigger] r[i];
        let f = facts[m.fact as int];
        &&& m.fact < facts.len()
        &&& m.similarity == scores[m.fact as int]
        &&& m.content@ == f.content@
        &&& f.id matches Some(id) ==> m.id@ == id@
        &&& m.tags@.len() == f.tags@.len()
        &&& texts(m.tags@) == texts(f.tags@)
        &&& options.apply_floor ==> m.similarity >= floor && m.similarity != i64::MIN
    } by {
        assert(0 <= pick[i] < window.len());
        assert(at[i] == window[pick[i]]);
        assert(0 <= window[pick[i]] < scores.len());
        assert(r[i].fact == at[i]);
        let f = facts[r[i].fact as int];
        assert(texts(r[i].tags@).len() == r[i].tags@.len());
        assert(texts(f.tags@).len() == f.tags@.len());
    }
    assert forall|i: int, j: int| 0 <= i < j < r.len() implies {
        let a = #[trigger] r[i];
        let b = #[trigger] r[j];
        a.similarity > b.similarity || (a.similarity == b.similarity && a.fact < b.fact)
    } by {
        assert(0 <= pick[i] < window.len() && 0 <= pick[j] < window.len());
        assert(at[i] == window[pick[i]] && at[j] == window[pick[j]]);
        assert(r[i].fact == at[i] && r[j].fact == at[j]);
        assert(pick[i] < pick[j]);
        let a = window[pick[i]];
        let b = window[pick[j]];
        assert(scores[a] > scores[b] || (scores[a] == scores[b] && a < b));
    }
    lemma_pick_len(pick, window.len() as int);
}

proof fn lemma_pick_len(pick: Seq<int>, n: int)
    requires
        n >= 0,
        forall|i: int| 0 <= i < pick.len() ==> 0 <= #[trigger] pick[i] < n,
        forall|i: int, j: int| 0 <= i < j < pick.len() ==> #[trigger] pick[i] < #[trigger] pick[j],
    ensures
        pick.len() <= n,
    decreases pick.len(),
{
    if pick.len() > 0 {
        let front = pick.drop_last();
        assert forall|i: int| 0 <= i < front.len() implies 0 <= #[trigger] front[i] < pick.last() by {
            assert(pick[i] < pick[pick.len() - 1]);
        }
        lemma_pick_len(front, pick.last());
    }
}

/// A memory is left out of a retrieval only for a reason: it is below the floor where that applies, or as
/// many as were asked for are returned and none of them is less similar.
pub proof fn a_retrieval_leaves_out_only_the_rest(
    asked: Option<usize>,
    facts: Seq<Fact>,
    scores: Seq<i64>,
    floor: i64,
    options: RetrieveOptions,
    r: Seq<Retrieved>,
    k: int,
)
    requires
        facts.len() == scores.len(),
        shows_facts(r, facts, scores, retrieved(scores, limit_of(asked), floor, options)),
        0 <= k < scores.len(),
        forall|i: int| 0 <= i < r.len() ==> (#[trigger] r[i]).fact != k,
        !options.apply_floor || (scores[k] >= floor && scores[k] != i64::MIN && floor != i64::MIN),
    ensures
        asked matches Some(n) ==> r.len() == n,
        asked is None ==> r.len() == 10,
        forall|i: int| 0 <= i < r.len() ==> (#[trigger] r[i]).similarity >= scores[k],
{
    let limit = limit_of(asked);
    let window = ranking(scores, limit);
    a_ranking_is_the_best_in_order(scores, limit);
    let at = retrieved(scores, limit, floor, options);
    let from = lemma_at_least(window, scores, floor);
    if window.contains(k) {
        let j = choose|j: int| 0 <= j < window.len() && window[j] == k;
        if options.apply_floor {
            assert(from.contains(j));
            let i = choose|i: int| 0 <= i < from.len() && from[i] == j;
            assert(at[i] == window[from[i]]);
            assert(r[i].fact == at[i]);
        } else {
            assert(r[j].fact == at[j]);
        }
    }
    assert(window.len() == limit);
    if options.apply_floor {
        assert forall|j: int| 0 <= j < window.len() implies from.contains(j) by {
            let a = window[j];
            assert(scores[a] >= scores[k]);
        }
        lemma_all_picked(from, window.len() as int);
    }
    assert forall|i: int| 0 <= i < r.len() implies (#[trigger] r[i]).similarity >= scores[k] by {
        assert(r[i].fact == at[i]);
        if options.apply_floor {
            assert(0 <= from[i] < window.len());
            let a = window[from[i]];
            assert(scores[a] >= scores[k]);
        } else {
            let a = window[i];
            assert(scores[a] >= scores[k]);
        }
    }
}

proof fn lemma_all_picked(pick: Seq<int>, n: int)
    requires
        n >= 0,
        forall|i: int| 0 <= i < pick.len() ==> 0 <= #[trigger] pick[i] < n,
        forall|i: int, j: int| 0 <= i < j < pick.len() ==> #[trigger] pick[i] < #[trigger] pick[j],
        forall|j: int| 0 <= j < n ==> pick.contains(j),
    ensures
        pick.len() == n,
    decreases n,
{
    lemma_pick_len(pick, n);
    if n > 0 {
        assert(pick.contains(n - 1));
        let x = choose|x: int| 0 <= x < pick.len() && pick[x] == n - 1;
        if x < pick.len() - 1 {
            assert(pick[x] < pick[pick.len() - 1]);
        }
        let front = pick.drop_last();
        assert forall|i: int| 0 <= i < front.len() implies 0 <= #[trigger] front[i] < n - 1 by {
            assert(pick[i] < pick[pick.len() - 1]);
        }
        assert forall|j: int| 0 <= j < n - 1 implies front.contains(j) by {
            assert(pick.contains(j));
            let y = choose|y: int| 0 <= y < pick.len() && pick[y] == j;
            assert(front[y] == j);
        }
        lemma_all_picked(front, n - 1);
    } else if pick.len() > 0 {
        assert(0 <= pick[0] < n);
    }
}

/// Heat spreads from the best of what is returned and from nothing else: from as many as the server is set
/// to, each under its ID and in order, and from none in a run without heat.
pub proof fn heat_spreads_from_the_best_results(
    facts: Seq<Fact>,
    scores: Seq<i64>,
    limit: nat,
    floor: i64,
    top_n: nat,
    options: RetrieveOptions,
    r: Retrieval,
)
    requires
        facts.len() == scores.len(),
        shows_facts(r.results@, facts, scores, retrieved(scores, limit, floor, options)),
        texts(r.activate@) == warms(
            facts,
            retrieved(scores, limit, floor, options),
            top_n,
            options,
        ),
        forall|i: int| 0 <= i < facts.len() ==> (#[trigger] facts[i]).id is Some,
    ensures
        !options.activate ==> r.activate@.len() == 0,
        options.activate ==> r.activate@.len() == (if r.results@.len() <= top_n {
            r.results@.len()
        } else {
            top_n
        }),
        forall|i: int|
            0 <= i < r.activate@.len() ==> (#[trigger] r.activate@[i])@ == r.results@[i].id@,
{
    let at = retrieved(scores, limit, floor, options);
    let ids = texts(r.activate@);
    assert(ids.len() == r.activate@.len());
    if options.activate {
        a_ranking_is_the_best_in_order(scores, limit);
        let window = ranking(scores, limit);
        let from = lemma_at_least(window, scores, floor);
        assert forall|i: int| 0 <= i < at.len() implies 0 <= #[trigger] at[i] < facts.len() by {
            if options.apply_floor {
                assert(0 <= from[i] < window.len());
                assert(0 <= window[from[i]] < scores.len());
            } else {
                assert(0 <= window[i] < scores.len());
            }
        }
        let best = first_of(at, top_n);
        lemma_ids_at(facts, best);
        assert forall|i: int| 0 <= i < r.activate@.len() implies (#[trigger] r.activate@[i])@
            == r.results@[i].id@ by {
            assert(ids[i] == facts[best[i]].id->0@);
            assert(best[i] == at[i]);
            assert(r.results@[i].fact == at[i]);
        }
    }
}

proof fn lemma_ids_at(facts: Seq<Fact>, at: Seq<int>)
    requires
        forall|i: int| 0 <= i < facts.len() ==> (#[trigger] facts[i]).id is Some,
        forall|i: int| 0 <= i < at.len() ==> 0 <= #[trigger] at[i] < facts.len(),
    ensures
        ids_at(facts, at).len() == at.len(),
        forall|i: int|
            0 <= i < at.len() ==> #[trigger] ids_at(facts, at)[i] == facts[at[i]].id->0@,
    decreases at.len(),
{
    if at.len() > 0 {
        let front = at.drop_last();
        lemma_ids_at(facts, front);
        assert(facts[at.last()].id is Some);
        assert forall|i: int| 0 <= i < at.len() implies #[trigger] ids_at(facts, at)[i]
            == facts[at[i]].id->0@ by {
            if i < front.len() {
                assert(ids_at(facts, front)[i] == facts[front[i]].id->0@);
            }
        }
    }
}

// ---------------------------------------------------------------------------
// Update
// ---------------------------------------------------------------------------
/// An update writes what it is given and nothing that it is not given, and the version that is replaced
/// is kept as it was.
pub proof fn an_update_writes_what_it_is_given(
    plan: UpdatePlan,
    params: UpdateMemoryParams,
    stored: Fact,
    i: int,
)
    requires
        updates(plan, params, stored),
    ensures
        plan.content is Some <==> params.content is Some,
        plan.content matches Some(c) ==> c@ == params.content->0@,
        plan.tags is Some <==> params.tags is Some,
        plan.tags matches Some(t) ==> t@.len() == params.tags->0@.len() && (0 <= i < t@.len() ==> t@[i]@
            == params.tags->0@[i]@),
        plan.embed is Some <==> (params.content is Some && params.content->0@ != stored.content@),
        plan.embed matches Some(e) ==> e@ == params.content->0@,
        plan.snapshot is Some <==> plan.embed is Some,
        plan.snapshot matches Some(old) ==> {
            &&& old.content@ == stored.content@
            &&& old.tags@.len() == stored.tags@.len()
            &&& 0 <= i < old.tags@.len() ==> old.tags@[i]@ == stored.tags@[i]@
            &&& old.edge_type@ == "derived_from"@
        },
{
    if let Some(t) = plan.tags {
        let p = params.tags->0;
        assert(texts(t@).len() == t@.len());
        assert(texts(p@).len() == p@.len());
        if 0 <= i < t@.len() {
            assert(texts(t@)[i] == texts(p@)[i]);
        }
    }
    if let Some(old) = plan.snapshot {
        assert(texts(old.tags@).len() == old.tags@.len());
        assert(texts(stored.tags@).len() == stored.tags@.len());
        if 0 <= i < old.tags@.len() {
            assert(texts(old.tags@)[i] == texts(stored.tags@)[i]);
        }
    }
}

// ---------------------------------------------------------------------------
// Placement
// ---------------------------------------------------------------------------
/// A memory joins the cluster that it is most similar to, the first of several, where it is similar enough
/// to join at all; else it founds one. Its new centroid starts from the first cluster of that ID.
pub proof fn a_memory_joins_its_most_similar_cluster(
    clusters: Seq<ClusterInfo>,
    threshold: i64,
    r: Placement,
    k: int,
)
    requires
        match placement_of(clusters, threshold) {
            None => r is Found,
            Some(i) => r matches Placement::Join { id, centroid_of } && id@ == clusters[i].id@
                && centroid_of == first_with_id(clusters, clusters[i].id@),
        },
        threshold > -0x3f80_0000,
    ensures
        0 <= k < clusters.len() && clusters[k].similarity >= threshold ==> r is Join,
        r matches Placement::Join { id, centroid_of } ==> {
            &&& centroid_of < clusters.len()
            &&& clusters[centroid_of as int].id@ == id@
            &&& 0 <= k < centroid_of ==> clusters[k].id@ != id@
            &&& exists|i: int|
                0 <= i < clusters.len() && (#[trigger] clusters[i]).id@ == id@
                    && clusters[i].similarity >= threshold && (0 <= k < clusters.len()
                    ==> clusters[k].similarity <= clusters[i].similarity) && (0 <= k < i
                    ==> clusters[k].similarity < clusters[i].similarity)
        },
        r is Found && 0 <= k < clusters.len() ==> clusters[k].similarity < threshold,
{
    crate::clusters::the_closest_is_the_best(clusters, clusters.len());
    if let Some(i) = placement_of(clusters, threshold) {
        lemma_first_with_id(clusters, clusters[i].id@, i);
    }
}

proof fn lemma_first_with_id(clusters: Seq<ClusterInfo>, id: Seq<char>, i: int)
    requires
        0 <= i < clusters.len(),
        clusters[i].id@ == id,
    ensures
        0 <= first_with_id(clusters, id) <= i,
        clusters[first_with_id(clusters, id)].id@ == id,
        forall|k: int| 0 <= k < first_with_id(clusters, id) ==> (#[trigger] clusters[k]).id@ != id,
    decreases clusters.len(),
{
    if clusters[0].id@ != id {
        let rest = clusters.drop_first();
        assert(rest[i - 1] == clusters[i]);
        lemma_first_with_id(rest, id, i - 1);
        let f = first_with_id(rest, id);
        assert(clusters[f + 1] == rest[f]);
        assert forall|k: int| 0 <= k < f + 1 implies (#[trigger] clusters[k]).id@ != id by {
            if k > 0 {
                assert(clusters[k] == rest[k - 1]);
            }
        }
    }
}

/// What a session knows of who stored into it comes from the first who said so.
pub proof fn the_first_to_say_so_is_kept(
    stored: Option<Seq<char>>,
    given: Option<Seq<char>>,
    later: Option<Seq<char>>,
)
    ensures
        stored is Some ==> first_known(stored, given) == stored,
        stored is None ==> first_known(stored, given) == given,
        first_known(first_known(stored, given), later) == (if stored is Some {
            stored
        } else if given is Some {
            given
        } else {
            later
        }),
{
}

} // verus!
