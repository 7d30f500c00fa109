//! Progressive recall: clusters first, then the memories of one.
use vstd::prelude::*;

use base64::engine::general_purpose::URL_SAFE_NO_PAD;
use base64::Engine;

use crate::failure::Failure;
use crate::ranking::{is_short_of, rank_by_similarity};
use crate::server::AlexandriaServer;
use crate::text::copy_of;
use crate::tools::RecallParams;

verus! {

// ---------------------------------------------------------------------------
// Scope handles
// ---------------------------------------------------------------------------
/// Stateless handle that names the cluster a recall narrows into.
#[derive(Debug)]
pub struct ScopeHandle {
    pub cluster_id: String,
    pub depth: u32,
    /// The embedding of the query, as the bits of its single-precision numbers.
    pub query_embedding: Vec<u32>,
    pub issued_at: u64,
}

/// Bytes in the URL-safe base64 alphabet without padding.
pub uninterp spec fn base64_text(bytes: Seq<u8>) -> Seq<char>;

/// The bytes that a text in that alphabet stands for, or why it stands for none.
pub uninterp spec fn base64_bytes(text: Seq<char>) -> Result<Seq<u8>, Seq<char>>;

/// Whether a text stands for these bytes.
pub open spec fn reads_as(text: Seq<char>, bytes: Seq<u8>) -> bool {
    base64_bytes(text) matches Ok(b) && b == bytes
}

/// `base64::Engine::encode` of `URL_SAFE_NO_PAD`. What it writes, `decode` of the same engine reads
/// back.
#[verifier::external_body]
fn to_base64(bytes: &Vec<u8>) -> (r: String)
    ensures
        r@ == base64_text(bytes@),
        reads_as(r@, bytes@),
{
    URL_SAFE_NO_PAD.encode(bytes)
}

/// `base64::Engine::decode` of `URL_SAFE_NO_PAD`, with its complaint as text.
#[verifier::external_body]
fn from_base64(text: &str) -> (r: Result<Vec<u8>, String>)
    ensures
        base64_bytes(text@) == (match r {
            Ok(v) => Ok(v@),
            Err(e) => Err(e@),
        }),
{
    match URL_SAFE_NO_PAD.decode(text) {
        Ok(v) => Ok(v),
        Err(e) => Err(e.to_string()),
    }
}

impl ScopeHandle {
    /// The handle for a cluster that a broad recall found.
    pub fn for_cluster(cluster_id: &str, query_embedding: Vec<u32>, issued_at: u64) -> (r: ScopeHandle)
        ensures
            r.cluster_id@ == cluster_id@,
            r.depth == 0,
            r.query_embedding == query_embedding,
            r.issued_at == issued_at,
    {
        ScopeHandle { cluster_id: copy_of(cluster_id), depth: 0, query_embedding, issued_at }
    }

    /// The text of a handle, given its serialized form. Decoding gives that form back.
    pub fn encode(serialized: &Vec<u8>) -> (r: String)
        ensures
            r@ == base64_text(serialized@),
            reads_as(r@, serialized@),
    {
        to_base64(serialized)
    }

    /// The serialized form of the handle that a text holds.
    pub fn decode(encoded: &str) -> (r: Result<Vec<u8>, Failure>)
        ensures
            match base64_bytes(encoded@) {
                Ok(bytes) => r matches Ok(v) && v@ == bytes,
                Err(e) => r matches Err(f) && f@ == seq![e],
            },
    {
        match from_base64(encoded) {
            Ok(v) => Ok(v),
            Err(e) => Err(Failure::new(e)),
        }
    }
}

// ---------------------------------------------------------------------------
// Recall
// ---------------------------------------------------------------------------
/// A memory, and how similar it is to the query.
#[derive(Debug)]
pub struct FactSummary {
    pub id: String,
    pub content: String,
    pub similarity: i64,
    /// Score of its similarity times the heat of its cluster, which is the mean heat of the cluster's
    /// members.
    pub weighted: i64,
}

/// A cluster with its members, and how similar its centroid is to the query.
#[derive(Debug)]
pub struct ClusterWithMembers {
    pub id: String,
    pub similarity: i64,
    pub members: Vec<FactSummary>,
}

/// A memory that a recall found.
#[derive(Debug)]
pub struct MemoryResult {
    /// Its place among the members that were searched.
    pub member: usize,
    pub id: String,
    pub content: String,
    pub similarity: i64,
}

/// A cluster that a broad recall found.
#[derive(Debug)]
pub struct ClusterMatch {
    /// Its place among the clusters that were searched.
    pub cluster: usize,
    pub cluster_id: String,
    /// The similarity of its best member.
    pub similarity: i64,
    pub representative_memories: Vec<MemoryResult>,
}

/// What a broad recall found.
#[derive(Debug)]
pub struct BroadRecallResult {
    pub clusters: Vec<ClusterMatch>,
}

/// What a focused recall found.
#[derive(Debug)]
pub struct FocusedRecallResult {
    pub memories: Vec<MemoryResult>,
}

/// How many members stand for a cluster.
pub const REPRESENTATIVES: usize = 3;

/// How many memories a focused recall returns.
pub const FOCUSED_LIMIT: usize = 10;

/// The similarities of a list of memories.
pub open spec fn similarities(members: Seq<FactSummary>) -> Seq<i64> {
    members.map_values(|m: FactSummary| m.similarity)
}

/// Whether `found` holds the members at `at`, in that order.
pub open spec fn holds_members(
    found: Seq<MemoryResult>,
    members: Seq<FactSummary>,
    at: Seq<int>,
) -> bool {
    &&& found.len() == at.len()
    &&& forall|i: int|
        0 <= i < at.len() ==> {
            let m = #[trigger] found[i];
            &&& m.member == at[i]
            &&& m.id@ == members[at[i]].id@
            &&& m.content@ == members[at[i]].content@
            &&& m.similarity == members[at[i]].similarity
        }
}

fn top_members(members: &Vec<FactSummary>, limit: usize) -> (r: Vec<MemoryResult>)
    ensures
        holds_members(
            r@,
            members@,
            crate::ranking::ranking(similarities(members@), limit as nat),
        ),
{
    let mut scores: Vec<i64> = Vec::new();
    let mut i: usize = 0;
    while i < members.len()
        invariant
            i <= members@.len(),
            scores@ == similarities(members@.take(i as int)),
        decreases members@.len() - i,
    {
        assert(similarities(members@.take(i + 1)) =~= similarities(members@.take(i as int)).push(
            members@[i as int].similarity,
        ));
        scores.push(members[i].similarity);
        i = i + 1;
    }
    assert(members@.take(members@.len() as int) =~= members@);
    let best = rank_by_similarity(&scores, limit);
    let ghost at = crate::ranking::ranking(similarities(members@), limit as nat);
    let mut r: Vec<MemoryResult> = Vec::new();
    let mut k: usize = 0;
    assert(crate::ranking::positions(best@).len() == best@.len());
    while k < best.len()
        invariant
            k <= best@.len(),
            at == crate::ranking::positions(best@),
            at.len() == best@.len(),
            forall|j: int| 0 <= j < best@.len() ==> (#[trigger] best@[j]) < members@.len(),
            holds_members(r@, members@, at.take(k as int)),
        decreases best@.len() - k,
    {
        let at_k: usize = best[k];
        let m = &members[at_k];
        let found = MemoryResult {
            member: at_k,
            id: copy_of(m.id.as_str()),
            content: copy_of(m.content.as_str()),
            similarity: m.similarity,
        };
        r.push(found);
        k = k + 1;
    }
    assert(at.take(at.len() as int) =~= at);
    r
}

/// The clusters among the first `n` that can match: similar enough, and not empty.
pub open spec fn eligible(clusters: Seq<ClusterWithMembers>, floor: i64, n: nat) -> Seq<int>
    decreases n,
{
    if n == 0 {
        seq![]
    } else {
        let before = eligible(clusters, floor, (n - 1) as nat);
        if !crate::ranking::short_of(clusters[n - 1].similarity, floor) && clusters[n
            - 1].members@.len() > 0 {
            before.push(n - 1)
        } else {
            before
        }
    }
}

/// The member of a cluster that is most similar to the query, the first of several.
pub open spec fn best_member(c: ClusterWithMembers) -> FactSummary {
    c.members@[crate::ranking::ranking(similarities(c.members@), REPRESENTATIVES as nat)[0]]
}

/// What a cluster is ranked by: the similarity of its best member times the heat of the cluster.
pub open spec fn rank_key(c: ClusterWithMembers) -> i64 {
    best_member(c).weighted
}

/// What each of some clusters is ranked by.
pub open spec fn rank_keys(clusters: Seq<ClusterWithMembers>, at: Seq<int>) -> Seq<i64> {
    at.map_values(|c: int| rank_key(clusters[c]))
}

/// The clusters that a broad recall finds: of those that can match, the `limit` with the greatest
/// similarity of the best member times heat of the cluster.
pub open spec fn recalled(clusters: Seq<ClusterWithMembers>, limit: nat, floor: i64) -> Seq<int> {
    let at = eligible(clusters, floor, clusters.len());
    crate::ranking::ranking(rank_keys(clusters, at), limit).map_values(|k: int| at[k])
}

/// Whether a match shows a cluster: its best members stand for it.
pub open spec fn shows_cluster(m: ClusterMatch, clusters: Seq<ClusterWithMembers>, c: int) -> bool {
    &&& m.cluster == c
    &&& m.cluster_id@ == clusters[c].id@
    &&& m.similarity == best_member(clusters[c]).similarity
    &&& holds_members(
        m.representative_memories@,
        clusters[c].members@,
        crate::ranking::ranking(similarities(clusters[c].members@), REPRESENTATIVES as nat),
    )
}

/// The clusters that can match are in range and in order.
pub proof fn lemma_eligible(clusters: Seq<ClusterWithMembers>, floor: i64, n: nat)
    requires
        n <= clusters.len(),
    ensures
        eligible(clusters, floor, n).len() <= n,
        forall|i: int|
            0 <= i < eligible(clusters, floor, n).len() ==> {
                let c = #[trigger] eligible(clusters, floor, n)[i];
                0 <= c < n && !crate::ranking::short_of(clusters[c].similarity, floor)
                    && clusters[c].members@.len() > 0
            },
    decreases n,
{
    if n > 0 {
        lemma_eligible(clusters, floor, (n - 1) as nat);
    }
}

/// A broad recall finds at most `limit` clusters, each similar enough and not empty, in the order of
/// their best member's similarity times their heat; a cluster that could have matched and is left out
/// ranks no higher than any that is found.
pub proof fn recall_finds_the_best_clusters(
    clusters: Seq<ClusterWithMembers>,
    limit: nat,
    floor: i64,
)
    ensures
        recalled(clusters, limit, floor).len() <= limit,
        forall|i: int|
            0 <= i < recalled(clusters, limit, floor).len() ==> {
                let c = #[trigger] recalled(clusters, limit, floor)[i];
                0 <= c < clusters.len() && !crate::ranking::short_of(clusters[c].similarity, floor)
                    && clusters[c].members@.len() > 0
            },
        forall|i: int, j: int|
            0 <= i < j < recalled(clusters, limit, floor).len() ==> rank_key(
                clusters[#[trigger] recalled(clusters, limit, floor)[i]],
            ) >= rank_key(clusters[#[trigger] recalled(clusters, limit, floor)[j]]),
        forall|i: int, c: int|
            0 <= i < recalled(clusters, limit, floor).len() && eligible(
                clusters,
                floor,
                clusters.len(),
            ).contains(c) && !recalled(clusters, limit, floor).contains(c) ==> rank_key(
                clusters[#[trigger] recalled(clusters, limit, floor)[i]],
            ) >= rank_key(#[trigger] clusters[c]),
{
    let at = eligible(clusters, floor, clusters.len());
    let keys = rank_keys(clusters, at);
    lemma_eligible(clusters, floor, clusters.len());
    crate::ranking::order_is_sorted(keys, keys.len());
    let r = crate::ranking::ranking(keys, limit);
    let found = recalled(clusters, limit, floor);
    assert forall|i: int| 0 <= i < found.len() implies {
        let c = #[trigger] found[i];
        0 <= c < clusters.len() && !crate::ranking::short_of(clusters[c].similarity, floor)
            && clusters[c].members@.len() > 0
    } by {
        let o = crate::ranking::order(keys, keys.len());
        assert(r[i] == o[i]);
        assert(0 <= o[i] < keys.len());
        assert(found[i] == at[r[i]]);
    }
    assert forall|i: int, c: int|
        0 <= i < found.len() && at.contains(c) && !found.contains(c) implies rank_key(
        clusters[#[trigger] found[i]],
    ) >= rank_key(#[trigger] clusters[c]) by {
        let k = choose|k: int| 0 <= k < at.len() && at[k] == c;
        if r.contains(k) {
            let m = choose|m: int| 0 <= m < r.len() && r[m] == k;
            assert(found[m] == c);
        }
        crate::ranking::ranking_keeps_the_best(keys, limit, i, k);
        let o = crate::ranking::order(keys, keys.len());
        assert(r[i] == o[i]);
        assert(0 <= o[i] < keys.len());
        assert(found[i] == at[r[i]]);
    }
    assert forall|i: int, j: int| 0 <= i < j < found.len() implies rank_key(
        clusters[#[trigger] found[i]],
    ) >= rank_key(clusters[#[trigger] found[j]]) by {
        let o = crate::ranking::order(keys, keys.len());
        assert(r[i] == o[i] && r[j] == o[j]);
        assert(crate::ranking::before(keys, o[i], o[j]));
        assert(0 <= o[i] < keys.len() && 0 <= o[j] < keys.len());
        assert(found[i] == at[r[i]] && found[j] == at[r[j]]);
    }
}

fn match_of(clusters: &Vec<ClusterWithMembers>, c: usize) -> (m: ClusterMatch)
    requires
        c < clusters@.len(),
        clusters@[c as int].members@.len() > 0,
    ensures
        shows_cluster(m, clusters@, c as int),
        0 < m.representative_memories@.len(),
        m.representative_memories@[0].member < clusters@[c as int].members@.len(),
        clusters@[c as int].members@[m.representative_memories@[0].member as int] == best_member(
            clusters@[c as int],
        ),
{
    let cluster = &clusters[c];
    let top = top_members(&cluster.members, REPRESENTATIVES);
    proof {
        crate::ranking::order_is_sorted(
            similarities(cluster.members@),
            similarities(cluster.members@).len(),
        );
        assert(top@.len() > 0);
        let s = similarities(cluster.members@);
        let at = crate::ranking::ranking(s, REPRESENTATIVES as nat);
        let o = crate::ranking::order(s, s.len());
        assert(at[0] == o[0]);
        assert(0 <= o[0] < s.len());
    }
    ClusterMatch {
        cluster: c,
        cluster_id: copy_of(cluster.id.as_str()),
        similarity: top[0].similarity,
        representative_memories: top,
    }
}

/// Broad recall: the top clusters for a query. A cluster is looked at where its centroid reaches the
/// floor, and ranked by the similarity of its best member times its heat.
pub fn broad_recall(clusters: &Vec<ClusterWithMembers>, limit: usize, min_similarity: i64) -> (r:
    BroadRecallResult)
    ensures
        r.clusters@.len() == recalled(clusters@, limit as nat, min_similarity).len(),
        forall|i: int|
            0 <= i < r.clusters@.len() ==> shows_cluster(
                #[trigger] r.clusters@[i],
                clusters@,
                recalled(clusters@, limit as nat, min_similarity)[i],
            ),
        r.clusters@.len() <= limit,
        forall|i: int|
            0 <= i < r.clusters@.len() ==> {
                let m = #[trigger] r.clusters@[i];
                let c = clusters@[m.cluster as int].members@;
                &&& m.cluster < clusters@.len()
                &&& m.representative_memories@.len() > 0
                &&& m.representative_memories@[0].member < c.len()
                &&& forall|k: int|
                    0 <= k < c.len() ==> (#[trigger] c[k]).similarity
                        <= m.representative_memories@[0].similarity
            },
        forall|i: int, j: int|
            0 <= i < j < r.clusters@.len() ==> {
                let a = #[trigger] r.clusters@[i];
                let b = #[trigger] r.clusters@[j];
                let x = a.representative_memories@[0].member as int;
                let y = b.representative_memories@[0].member as int;
                clusters@[a.cluster as int].members@[x].weighted
                    >= clusters@[b.cluster as int].members@[y].weighted
            },
{
    let mut at: Vec<usize> = Vec::new();
    let mut keys: Vec<i64> = Vec::new();
    let mut c: usize = 0;
    let ghost all = eligible(clusters@, min_similarity, clusters@.len());
    assert(crate::ranking::positions(at@) =~= seq![]);
    assert(keys@ =~= rank_keys(clusters@, seq![]));
    while c < clusters.len()
        invariant
            c <= clusters@.len(),
            crate::ranking::positions(at@) == eligible(clusters@, min_similarity, c as nat),
            keys@ == rank_keys(clusters@, crate::ranking::positions(at@)),
            forall|i: int|
                0 <= i < at@.len() ==> (#[trigger] at@[i]) < clusters@.len()
                    && clusters@[at@[i] as int].members@.len() > 0,
        decreases clusters@.len() - c,
    {
        if !is_short_of(clusters[c].similarity, min_similarity) && clusters[c].members.len() > 0 {
            let m = match_of(clusters, c);
            let key: i64 = clusters[c].members[m.representative_memories[0].member].weighted;
            proof {
                let p = crate::ranking::positions(at@);
                assert(crate::ranking::positions(at@.push(c)) =~= p.push(c as int));
                assert(rank_keys(clusters@, p.push(c as int)) =~= rank_keys(
                    clusters@,
                    p,
                ).push(key));
            }
            at.push(c);
            keys.push(key);
        }
        c = c + 1;
    }
    let best = rank_by_similarity(&keys, limit);
    let ghost found = recalled(clusters@, limit as nat, min_similarity);
    proof {
        assert(crate::ranking::positions(best@).len() == best@.len());
        assert(crate::ranking::positions(at@).len() == at@.len());
        assert(found.len() == best@.len());
    }
    let mut matches_found: Vec<ClusterMatch> = Vec::new();
    let mut k: usize = 0;
    while k < best.len()
        invariant
            k <= best@.len(),
            matches_found@.len() == k,
            found.len() == best@.len(),
            keys@.len() == at@.len(),
            forall|i: int| 0 <= i < best@.len() ==> (#[trigger] best@[i]) < keys@.len(),
            forall|i: int|
                0 <= i < best@.len() ==> #[trigger] found[i] == at@[best@[i] as int] as int,
            forall|i: int|
                0 <= i < at@.len() ==> (#[trigger] at@[i]) < clusters@.len()
                    && clusters@[at@[i] as int].members@.len() > 0,
            forall|i: int|
                0 <= i < k ==> shows_cluster(#[trigger] matches_found@[i], clusters@, found[i]),
        decreases best@.len() - k,
    {
        assert(found[k as int] == at@[best@[k as int] as int] as int);
        let m = match_of(clusters, at[best[k]]);
        matches_found.push(m);
        k = k + 1;
    }
    proof {
        let shown = matches_found@;
        crate::laws::recall::found_clusters_qualify(
            clusters@,
            limit as nat,
            min_similarity,
            shown,
        );
        assert forall|i: int| 0 <= i < shown.len() implies {
            let m = #[trigger] shown[i];
            let c = clusters@[m.cluster as int].members@;
            &&& m.representative_memories@.len() > 0
            &&& m.representative_memories@[0].member < c.len()
            &&& forall|k: int|
                0 <= k < c.len() ==> (#[trigger] c[k]).similarity
                    <= m.representative_memories@[0].similarity
            &&& forall|k: int|
                0 <= k < m.representative_memories@[0].member ==> (#[trigger] c[k]).similarity
                    < m.representative_memories@[0].similarity
            &&& c[m.representative_memories@[0].member as int].similarity
                == m.representative_memories@[0].similarity
        } by {
            let m = shown[i];
            crate::laws::recall::the_first_found_is_the_best(
                clusters@[m.cluster as int].members@,
                REPRESENTATIVES as nat,
                m.representative_memories@,
            );
        }
        assert forall|i: int, j: int| 0 <= i < j < shown.len() implies {
            let a = #[trigger] shown[i];
            let b = #[trigger] shown[j];
            let x = a.representative_memories@[0].member as int;
            let y = b.representative_memories@[0].member as int;
            clusters@[a.cluster as int].members@[x].weighted
                >= clusters@[b.cluster as int].members@[y].weighted
        } by {
            crate::laws::recall::clusters_rank_by_their_most_similar_member(
                clusters@,
                limit as nat,
                min_similarity,
                shown,
                j,
                i,
                shown[j].representative_memories@[0].member as int,
                shown[i].representative_memories@[0].member as int,
            );
        }
    }
    BroadRecallResult { clusters: matches_found }
}

/// Focused recall: the best memories of one cluster.
pub fn focused_recall(cluster_data: &ClusterWithMembers) -> (r: FocusedRecallResult)
    ensures
        holds_members(
            r.memories@,
            cluster_data.members@,
            crate::ranking::ranking(similarities(cluster_data.members@), FOCUSED_LIMIT as nat),
        ),
        r.memories@.len() == (if cluster_data.members@.len() <= 10 {
            cluster_data.members@.len()
        } else {
            10
        }),
        forall|i: int, j: int|
            0 <= i < j < r.memories@.len() ==> (#[trigger] r.memories@[i]).similarity >= (
            #[trigger] r.memories@[j]).similarity,
        forall|i: int, k: int|
            0 <= i < r.memories@.len() && 0 <= k < cluster_data.members@.len() && (forall|j: int|
                0 <= j < r.memories@.len() ==> (#[trigger] r.memories@[j]).member != k) ==> (
            #[trigger] r.memories@[i]).similarity >= (
            #[trigger] cluster_data.members@[k]).similarity,
{
    let memories = top_members(&cluster_data.members, FOCUSED_LIMIT);
    proof {
        crate::laws::recall::the_most_similar_memories_are_found(
            cluster_data.members@,
            FOCUSED_LIMIT as nat,
            memories@,
        );
    }
    FocusedRecallResult { memories }
}

// ---------------------------------------------------------------------------
// The tool
// ---------------------------------------------------------------------------
/// How many clusters the tool returns.
pub const RECALL_CLUSTERS: usize = 5;

/// Which recall a request asks for.
#[derive(Debug)]
pub enum RecallScope {
    /// Within the cluster that a handle names; here is its serialized form.
    Focused { handle: Vec<u8> },
    /// Over all clusters.
    Broad,
}

impl AlexandriaServer {
    /// Which recall a request asks for: within a cluster exactly if it brings a handle. A handle that
    /// cannot be read is an error, never a broad recall.
    pub fn do_recall(&self, params: &RecallParams) -> (r: Result<RecallScope, Failure>)
        ensures
            match params.scope_handle {
                None => r matches Ok(s) && s is Broad,
                Some(h) => match base64_bytes(h@) {
                    Ok(bytes) => r matches Ok(RecallScope::Focused { handle }) && handle@ == bytes,
                    Err(e) => r matches Err(f) && f@ == seq![e],
                },
            },
    {
        match &params.scope_handle {
            Some(h) => match ScopeHandle::decode(h.as_str()) {
                Ok(handle) => Ok(RecallScope::Focused { handle }),
                Err(f) => Err(f),
            },
            None => Ok(RecallScope::Broad),
        }
    }

    /// A broad recall over all clusters, with the floor of retrieval.
    pub fn recall_broadly(&self, clusters: &Vec<ClusterWithMembers>) -> (r: BroadRecallResult)
        ensures
            r.clusters@.len() == recalled(
                clusters@,
                RECALL_CLUSTERS as nat,
                self.retrieve_min_similarity,
            ).len(),
            forall|i: int|
                0 <= i < r.clusters@.len() ==> shows_cluster(
                    #[trigger] r.clusters@[i],
                    clusters@,
                    recalled(clusters@, RECALL_CLUSTERS as nat, self.retrieve_min_similarity)[i],
                ),
            r.clusters@.len() <= 5,
    {
        broad_recall(clusters, RECALL_CLUSTERS, self.retrieve_min_similarity)
    }
}

} // verus!
