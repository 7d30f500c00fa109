//! Storing, updating, importing and retrieving memories.
use vstd::prelude::*;

use crate::chunking::{chunk_by_fixed_size, chunk_by_heading, chunk_by_paragraph, Chunk};
use crate::clusters::{assign_to_cluster, ClusterAssignment, ClusterInfo};
use crate::failure::Failure;
use crate::ranking::{does_reach, rank_by_similarity};
use crate::server::AlexandriaServer;
use crate::text::{copy_of, copy_opt, copy_texts, same};
use crate::time::Instant;
use crate::tools::{
    FinalizeSessionParams, GetSessionParams, ImportDocumentParams, RetrieveMemoriesParams,
    StoreMemoryParams,
};

verus! {

broadcast use crate::text::lemma_texts_push;

/// What the tools read of a stored fact.
#[derive(Debug)]
pub struct Fact {
    pub id: Option<String>,
    pub content: String,
    pub tags: Vec<String>,
}

// ---------------------------------------------------------------------------
// Retrieval
// ---------------------------------------------------------------------------
/// Which optional stages a retrieval performs.
#[derive(Clone, Copy, Debug, PartialEq, Eq, Structural)]
pub struct RetrieveOptions {
    /// Spread heat from the best of the kept results.
    pub activate: bool,
    /// Drop ranked results below the similarity floor.
    pub apply_floor: bool,
}

/// Results when the caller sets no limit.
pub const DEFAULT_RETRIEVE_LIMIT: usize = 10;

/// The limit of a retrieval.
pub open spec fn limit_of(limit: Option<usize>) -> nat {
    match limit {
        Some(n) => n as nat,
        None => DEFAULT_RETRIEVE_LIMIT as nat,
    }
}

/// The positions of `r` whose score reaches the floor, in order.
pub open spec fn at_least(r: Seq<int>, scores: Seq<i64>, floor: i64) -> Seq<int>
    decreases r.len(),
{
    if r.len() == 0 {
        seq![]
    } else {
        let before = at_least(r.drop_last(), scores, floor);
        if crate::ranking::reaches(scores[r.last()], floor) {
            before.push(r.last())
        } else {
            before
        }
    }
}

/// What a retrieval returns: the best positions up to the limit, and of these the ones that reach the
/// floor where it applies.
pub open spec fn retrieved(
    scores: Seq<i64>,
    limit: nat,
    floor: i64,
    options: RetrieveOptions,
) -> Seq<int> {
    let window = crate::ranking::ranking(scores, limit);
    if options.apply_floor {
        at_least(window, scores, floor)
    } else {
        window
    }
}

/// The IDs of the facts at some positions, of those that have one.
pub open spec fn ids_at(facts: Seq<Fact>, at: Seq<int>) -> Seq<Seq<char>>
    decreases at.len(),
{
    if at.len() == 0 {
        seq![]
    } else {
        let before = ids_at(facts, at.drop_last());
        match facts[at.last()].id {
            Some(id) => before.push(id@),
            None => before,
        }
    }
}

/// The facts that a retrieval warms: the best of what it returns.
pub open spec fn warms(
    facts: Seq<Fact>,
    returned: Seq<int>,
    top_n: nat,
    options: RetrieveOptions,
) -> Seq<Seq<char>> {
    if options.activate {
        ids_at(facts, crate::ranking::first_of(returned, top_n))
    } else {
        seq![]
    }
}

/// A retrieved memory.
#[derive(Debug)]
pub struct Retrieved {
    /// Its place among the facts that were searched.
    pub fact: usize,
    pub id: String,
    pub content: String,
    pub similarity: i64,
    pub tags: Vec<String>,
}

/// What a retrieval comes to: the results, and the IDs of the facts from which heat spreads.
#[derive(Debug)]
pub struct Retrieval {
    pub results: Vec<Retrieved>,
    pub activate: Vec<String>,
}

/// Whether results show the facts at some positions.
pub open spec fn shows_facts(
    results: Seq<Retrieved>,
    facts: Seq<Fact>,
    scores: Seq<i64>,
    at: Seq<int>,
) -> bool {
    &&& results.len() == at.len()
    &&& forall|i: int|
        0 <= i < at.len() ==> {
            let m = #[trigger] results[i];
            let f = facts[at[i]];
            &&& m.fact == at[i]
            &&& m.id@ == (match f.id {
                Some(id) => id@,
                None => ""@,
            })
            &&& m.content@ == f.content@
            &&& m.similarity == scores[at[i]]
            &&& crate::text::texts(m.tags@) == crate::text::texts(f.tags@)
        }
}

/// The floor keeps a prefix of the ranked window, so the rows it suppresses are exactly the rest.
pub proof fn the_floor_keeps_a_prefix(scores: Seq<i64>, limit: nat, floor: i64, activate: bool)
    ensures
        ({
            let kept = retrieved(
                scores,
                limit,
                floor,
                RetrieveOptions { activate, apply_floor: true },
            );
            let window = retrieved(
                scores,
                limit,
                floor,
                RetrieveOptions { activate, apply_floor: false },
            );
            &&& kept.len() <= window.len()
            &&& kept == window.take(kept.len() as int)
            &&& forall|i: int|
                0 <= i < kept.len() ==> crate::ranking::reaches(scores[#[trigger] kept[i]], floor)
            &&& forall|i: int|
                kept.len() <= i < window.len() ==> !crate::ranking::reaches(
                    scores[#[trigger] window[i]],
                    floor,
                )
        }),
{
    crate::ranking::order_is_sorted(scores, scores.len());
    let window = crate::ranking::ranking(scores, limit);
    let o = crate::ranking::order(scores, scores.len());
    assert forall|i: int, j: int| 0 <= i < j < window.len() implies scores[#[trigger] window[i]]
        >= scores[#[trigger] window[j]] by {
        assert(window[i] == o[i] && window[j] == o[j]);
        assert(crate::ranking::before(scores, o[i], o[j]));
    }
    lemma_at_least_prefix(window, scores, floor);
}

proof fn lemma_at_least_prefix(r: Seq<int>, scores: Seq<i64>, floor: i64)
    requires
        forall|i: int, j: int|
            0 <= i < j < r.len() ==> scores[#[trigger] r[i]] >= scores[#[trigger] r[j]],
    ensures
        at_least(r, scores, floor).len() <= r.len(),
        at_least(r, scores, floor) == r.take(at_least(r, scores, floor).len() as int),
        forall|i: int|
            0 <= i < at_least(r, scores, floor).len() ==> crate::ranking::reaches(
                scores[#[trigger] at_least(r, scores, floor)[i]],
                floor,
            ),
        forall|i: int|
            at_least(r, scores, floor).len() <= i < r.len() ==> !crate::ranking::reaches(
                scores[#[trigger] r[i]],
                floor,
            ),
    decreases r.len(),
{
    if r.len() > 0 {
        let front = r.drop_last();
        lemma_at_least_prefix(front, scores, floor);
        let before = at_least(front, scores, floor);
        let all = at_least(r, scores, floor);
        if crate::ranking::reaches(scores[r.last()], floor) {
            if before.len() < front.len() {
                assert(!crate::ranking::reaches(scores[front[before.len() as int]], floor));
                assert(scores[r[before.len() as int]] >= scores[r[r.len() - 1]]);
            }
            assert(all =~= r);
        }
        assert(all =~= r.take(all.len() as int));
        assert forall|i: int| all.len() <= i < r.len() implies !crate::ranking::reaches(
            scores[#[trigger] r[i]],
            floor,
        ) by {
            if i < front.len() {
                assert(front[i] == r[i]);
            }
        }
    }
}

/// A dry run returns what the tool returns; it only leaves out the heat.
pub proof fn a_dry_run_returns_the_same(
    facts: Seq<Fact>,
    scores: Seq<i64>,
    limit: nat,
    floor: i64,
    top_n: nat,
    apply_floor: bool,
)
    ensures
        retrieved(scores, limit, floor, RetrieveOptions { activate: true, apply_floor })
            == retrieved(scores, limit, floor, RetrieveOptions { activate: false, apply_floor }),
        warms(
            facts,
            retrieved(scores, limit, floor, RetrieveOptions { activate: false, apply_floor }),
            top_n,
            RetrieveOptions { activate: false, apply_floor },
        ).len() == 0,
{
}

fn id_text(f: &Fact) -> (r: String)
    ensures
        r@ == (match f.id {
            Some(id) => id@,
            None => ""@,
        }),
{
    match &f.id {
        Some(id) => copy_of(id.as_str()),
        None => copy_of(""),
    }
}

impl AlexandriaServer {
    /// Shared retrieval, given the facts that were searched and their similarity to the query.
    /// `options` selects the two optional stages and nothing else: heat spreads after ranking and after
    /// the floor, so it warms only results that a caller sees.
    pub fn retrieve_core(
        &self,
        params: &RetrieveMemoriesParams,
        facts: &Vec<Fact>,
        scores: &Vec<i64>,
        options: RetrieveOptions,
    ) -> (r: Retrieval)
        requires
            facts@.len() == scores@.len(),
        ensures
            ({
                let at = retrieved(
                    scores@,
                    limit_of(params.limit),
                    self.retrieve_min_similarity,
                    options,
                );
                &&& shows_facts(r.results@, facts@, scores@, at)
                &&& crate::text::texts(r.activate@) == warms(
                    facts@,
                    at,
                    self.activation_top_n as nat,
                    options,
                )
            }),
            params.limit matches Some(n) ==> r.results@.len() <= n,
            params.limit is None ==> r.results@.len() <= 10,
            forall|i: int, j: int|
                0 <= i < j < r.results@.len() ==> (#[trigger] r.results@[i]).similarity >= (
                #[trigger] r.results@[j]).similarity,
            options.apply_floor ==> forall|i: int|
                0 <= i < r.results@.len() ==> (#[trigger] r.results@[i]).similarity
                    >= self.retrieve_min_similarity,
            forall|k: int, i: int|
                0 <= k < scores@.len() && 0 <= i < r.results@.len() && (!options.apply_floor || (
                scores@[k] >= self.retrieve_min_similarity && scores@[k] != i64::MIN
                    && self.retrieve_min_similarity != i64::MIN)) && (forall|j: int|
                    0 <= j < r.results@.len() ==> (#[trigger] r.results@[j]).fact != k) ==> (
                #[trigger] scores@[k]) <= (#[trigger] r.results@[i]).similarity && r.results@.len()
                    == limit_of(params.limit),
    {
        let limit: usize = match params.limit {
            Some(n) => n,
            None => DEFAULT_RETRIEVE_LIMIT,
        };
        let window = rank_by_similarity(scores, limit);
        let ghost ranked = crate::ranking::positions(window@);
        let ghost at = retrieved(
            scores@,
            limit_of(params.limit),
            self.retrieve_min_similarity,
            options,
        );
        let mut results: Vec<Retrieved> = Vec::new();
        let mut activate: Vec<String> = Vec::new();
        let ghost mut kept: Seq<int> = seq![];
        let mut k: usize = 0;
        assert(crate::ranking::first_of(kept, self.activation_top_n as nat) =~= seq![]);
        assert(crate::text::texts(activate@) =~= seq![]);
        while k < window.len()
            invariant
                k <= window@.len(),
                facts@.len() == scores@.len(),
                ranked == crate::ranking::positions(window@),
                forall|i: int| 0 <= i < window@.len() ==> (#[trigger] window@[i]) < scores@.len(),
                kept == (if options.apply_floor {
                    at_least(ranked.take(k as int), scores@, self.retrieve_min_similarity)
                } else {
                    ranked.take(k as int)
                }),
                shows_facts(results@, facts@, scores@, kept),
                crate::text::texts(activate@) == warms(
                    facts@,
                    kept,
                    self.activation_top_n as nat,
                    options,
                ),
            decreases window@.len() - k,
        {
            let i: usize = window[k];
            proof {
                assert(ranked.take(k + 1).drop_last() =~= ranked.take(k as int));
                assert(ranked.take(k + 1) =~= ranked.take(k as int).push(i as int));
            }
            if !options.apply_floor || does_reach(scores[i], self.retrieve_min_similarity) {
                let f = &facts[i];
                let ghost top = self.activation_top_n as nat;
                let ghost next = kept.push(i as int);
                assert(kept.len() == results@.len());
                if options.activate && results.len() < self.activation_top_n {
                    proof {
                        assert(crate::ranking::first_of(next, top) =~= next);
                        assert(crate::ranking::first_of(kept, top) =~= kept);
                        assert(next.drop_last() =~= kept);
                    }
                    match &f.id {
                        Some(id) => {
                            activate.push(copy_of(id.as_str()));
                        },
                        None => {},
                    }
                } else {
                    proof {
                        if options.activate {
                            assert(crate::ranking::first_of(next, top)
                                =~= crate::ranking::first_of(kept, top));
                        }
                    }
                }
                let found = Retrieved {
                    fact: i,
                    id: id_text(f),
                    content: copy_of(f.content.as_str()),
                    similarity: scores[i],
                    tags: copy_texts(&f.tags),
                };
                results.push(found);
                proof {
                    kept = next;
                }
            }
            k = k + 1;
        }
        assert(ranked.take(ranked.len() as int) =~= ranked);
        proof {
            let floor = self.retrieve_min_similarity;
            crate::laws::memories::a_retrieval_returns_the_best_first(
                params.limit,
                facts@,
                scores@,
                floor,
                options,
                results@,
            );
            assert forall|k: int, i: int|
                0 <= k < scores@.len() && 0 <= i < results@.len() && (!options.apply_floor || (
                scores@[k] >= floor && scores@[k] != i64::MIN && floor != i64::MIN)) && (forall|
                    j: int,
                |
                    0 <= j < results@.len() ==> (#[trigger] results@[j]).fact != k) implies (
            #[trigger] scores@[k]) <= (#[trigger] results@[i]).similarity && results@.len()
                == limit_of(params.limit) by {
                crate::laws::memories::a_retrieval_leaves_out_only_the_rest(
                    params.limit,
                    facts@,
                    scores@,
                    floor,
                    options,
                    results@,
                    k,
                );
            }
        }
        Retrieval { results, activate }
    }

    /// Retrieval for the tool: the floor applies, and heat spreads.
    pub fn do_retrieve_memories(
        &self,
        params: &RetrieveMemoriesParams,
        facts: &Vec<Fact>,
        scores: &Vec<i64>,
    ) -> (r: Retrieval)
        requires
            facts@.len() == scores@.len(),
        ensures
            ({
                let options = RetrieveOptions { activate: true, apply_floor: true };
                let at = retrieved(
                    scores@,
                    limit_of(params.limit),
                    self.retrieve_min_similarity,
                    options,
                );
                &&& shows_facts(r.results@, facts@, scores@, at)
                &&& crate::text::texts(r.activate@) == warms(
                    facts@,
                    at,
                    self.activation_top_n as nat,
                    options,
                )
            }),
            params.limit matches Some(n) ==> r.results@.len() <= n,
            params.limit is None ==> r.results@.len() <= 10,
            forall|i: int|
                0 <= i < r.results@.len() ==> (#[trigger] r.results@[i]).similarity
                    >= self.retrieve_min_similarity,
            forall|i: int, j: int|
                0 <= i < j < r.results@.len() ==> (#[trigger] r.results@[i]).similarity >= (
                #[trigger] r.results@[j]).similarity,
    {
        self.retrieve_core(
            params,
            facts,
            scores,
            RetrieveOptions { activate: true, apply_floor: true },
        )
    }

    /// Retrieval without the heat, for a diagnostic query that must not disturb the ranking it is
    /// there to explain.
    pub fn do_retrieve_memories_dry(
        &self,
        params: &RetrieveMemoriesParams,
        facts: &Vec<Fact>,
        scores: &Vec<i64>,
    ) -> (r: Retrieval)
        requires
            facts@.len() == scores@.len(),
        ensures
            r.activate@.len() == 0,
            shows_facts(
                r.results@,
                facts@,
                scores@,
                retrieved(
                    scores@,
                    limit_of(params.limit),
                    self.retrieve_min_similarity,
                    RetrieveOptions { activate: false, apply_floor: true },
                ),
            ),
    {
        let r = self.retrieve_core(
            params,
            facts,
            scores,
            RetrieveOptions { activate: false, apply_floor: true },
        );
        assert(r.activate@.len() == crate::text::texts(r.activate@).len());
        r
    }

    /// The ranked window before the floor, without heat: what lets a reader see which results the
    /// floor suppressed.
    pub fn do_retrieve_memories_unfiltered(
        &self,
        params: &RetrieveMemoriesParams,
        facts: &Vec<Fact>,
        scores: &Vec<i64>,
    ) -> (r: Retrieval)
        requires
            facts@.len() == scores@.len(),
        ensures
            r.activate@.len() == 0,
            shows_facts(
                r.results@,
                facts@,
                scores@,
                crate::ranking::ranking(scores@, limit_of(params.limit)),
            ),
    {
        let r = self.retrieve_core(
            params,
            facts,
            scores,
            RetrieveOptions { activate: false, apply_floor: false },
        );
        assert(r.activate@.len() == crate::text::texts(r.activate@).len());
        r
    }
}

// ---------------------------------------------------------------------------
// Update
// ---------------------------------------------------------------------------
/// Parameters of `update_memory`, but for the confidence, which is only passed on.
#[derive(Debug)]
pub struct UpdateMemoryParams {
    pub id: String,
    /// New content; a change means a new embedding.
    pub content: Option<String>,
    /// Replaces the tags.
    pub tags: Option<Vec<String>>,
}

/// Whether an update changes the content.
pub open spec fn content_changes(new_content: Option<Seq<char>>, stored: Seq<char>) -> bool {
    new_content is Some && new_content->0 != stored
}

/// Type of the edge from a memory to an older version of it.
pub const DERIVED_FROM: &'static str = "derived_from";

/// Type of the edge from a memory to the document that it was taken from.
pub const EXTRACTED_FROM: &'static str = "extracted_from";

/// The version of a memory that an update replaces. It becomes a fact of its own, hidden from search, and
/// the memory is linked to it.
#[derive(Debug)]
pub struct Snapshot {
    pub content: String,
    pub tags: Vec<String>,
    /// The type of the link.
    pub edge_type: &'static str,
}

/// What an update comes to.
#[derive(Debug)]
pub struct UpdatePlan {
    /// The content to embed anew, where it changes.
    pub embed: Option<String>,
    /// The version to keep, where the content changes; kept before anything is overwritten.
    pub snapshot: Option<Snapshot>,
    /// The content to write.
    pub content: Option<String>,
    /// The tags to write, in place of the stored ones.
    pub tags: Option<Vec<String>>,
}

/// The texts of an optional list.
pub open spec fn opt_texts(v: Option<Vec<String>>) -> Option<Seq<Seq<char>>> {
    match v {
        Some(v) => Some(crate::text::texts(v@)),
        None => None,
    }
}

/// Whether a plan carries out an update of a stored fact: what is given is written, and where the
/// content changes it is embedded anew and the old version kept.
pub open spec fn updates(plan: UpdatePlan, params: UpdateMemoryParams, stored: Fact) -> bool {
    let changes = content_changes(crate::text::opt_text(params.content), stored.content@);
    &&& crate::text::opt_text(plan.content) == crate::text::opt_text(params.content)
    &&& opt_texts(plan.tags) == opt_texts(params.tags)
    &&& crate::text::opt_text(plan.embed) == (if changes {
        crate::text::opt_text(params.content)
    } else {
        None
    })
    &&& plan.snapshot is Some <==> changes
    &&& plan.snapshot matches Some(old) ==> {
        &&& old.content@ == stored.content@
        &&& crate::text::texts(old.tags@) == crate::text::texts(stored.tags@)
        &&& old.edge_type@ == DERIVED_FROM@
    }
}

/// No content is lost to an update: where what is written differs from what was stored, the stored
/// version is kept behind a lineage edge. An update that writes the same content again, or none, keeps
/// nothing and embeds nothing.
pub proof fn an_update_loses_no_content(plan: UpdatePlan, params: UpdateMemoryParams, stored: Fact)
    requires
        updates(plan, params, stored),
    ensures
        plan.content matches Some(new) ==> (new@ != stored.content@ ==> {
            &&& plan.snapshot matches Some(old) && old.content@ == stored.content@ && old.edge_type@
                == DERIVED_FROM@
            &&& plan.embed matches Some(e) && e@ == new@
        }),
        (plan.content matches Some(new) ==> new@ == stored.content@) ==> plan.snapshot is None
            && plan.embed is None,
{
}

fn copy_opt_texts(v: &Option<Vec<String>>) -> (r: Option<Vec<String>>)
    ensures
        opt_texts(r) == opt_texts(*v),
{
    match v {
        Some(v) => Some(copy_texts(v)),
        None => None,
    }
}

impl AlexandriaServer {
    /// What an update comes to. The memory has to exist; `stored` is what it holds.
    pub fn do_update_memory(&self, params: &UpdateMemoryParams, stored: &Option<Fact>) -> (r: Result<
        UpdatePlan,
        Failure,
    >)
        ensures
            match *stored {
                None => r matches Err(f) && f@ == seq!["Memory not found: "@ + params.id@],
                Some(fact) => r matches Ok(plan) && updates(plan, *params, fact),
            },
    {
        let fact = match stored {
            None => {
                let mut m = copy_of("Memory not found: ");
                m.append(params.id.as_str());
                return Err(Failure::new(m));
            },
            Some(fact) => fact,
        };
        let changes = match &params.content {
            Some(new_content) => !same(new_content.as_str(), fact.content.as_str()),
            None => false,
        };
        let (embed, snapshot) = if changes {
            (
                copy_opt(&params.content),
                Some(
                    Snapshot {
                        content: copy_of(fact.content.as_str()),
                        tags: copy_texts(&fact.tags),
                        edge_type: DERIVED_FROM,
                    },
                ),
            )
        } else {
            (None, None)
        };
        Ok(
            UpdatePlan {
                embed,
                snapshot,
                content: copy_opt(&params.content),
                tags: copy_opt_texts(&params.tags),
            },
        )
    }
}

/// Which of the vectors that an embedding returned an update uses: the first one.
pub fn update_embedding(returned: usize) -> (r: Result<usize, Failure>)
    ensures
        returned == 0 ==> (r matches Err(f) && f@ == seq!["Embedding returned empty result"@]),
        returned > 0 ==> (r matches Ok(i) && i == 0),
{
    if returned == 0 {
        Err(Failure::saying("Embedding returned empty result"))
    } else {
        Ok(0)
    }
}

/// What an update reports once the write has been tried: whether the content changed.
pub fn update_outcome(params: &UpdateMemoryParams, plan: &UpdatePlan, written: bool) -> (r: Result<
    bool,
    Failure,
>)
    ensures
        written ==> (r matches Ok(changed) && changed == plan.embed is Some),
        !written ==> (r matches Err(f) && f@ == seq!["Update failed for "@ + params.id@]),
{
    if written {
        Ok(plan.embed.is_some())
    } else {
        let mut m = copy_of("Update failed for ");
        m.append(params.id.as_str());
        Err(Failure::new(m))
    }
}

// ---------------------------------------------------------------------------
// Import
// ---------------------------------------------------------------------------
/// Characters per chunk of the fixed-size strategy.
pub const IMPORT_CHUNK_SIZE: usize = 1000;

/// Characters that neighbouring chunks of that strategy share.
pub const IMPORT_CHUNK_OVERLAP: usize = 100;

/// The contents of a list of chunks.
pub open spec fn contents(chunks: Seq<crate::chunking::ChunkText>) -> Seq<Seq<char>> {
    chunks.map_values(|c: crate::chunking::ChunkText| c.content)
}

/// An optional text, or what stands for it.
pub open spec fn text_or(o: Option<Seq<char>>, default: Seq<char>) -> Seq<char> {
    match o {
        Some(s) => s,
        None => default,
    }
}

/// The pieces that a document is stored in: itself, or its chunks by heading, paragraph or size.
pub open spec fn pieces(p: ImportDocumentParams) -> Result<Seq<Seq<char>>, Seq<char>> {
    let mode = text_or(crate::text::opt_text(p.mode), "chunk"@);
    let strategy = text_or(crate::text::opt_text(p.chunk_strategy), "heading"@);
    if mode == "whole"@ {
        Ok(seq![p.content@])
    } else if mode == "chunk"@ {
        if strategy == "heading"@ {
            Ok(
                contents(
                    crate::chunking::chunks_of(
                        crate::chunking::sections(crate::text::lines(p.content@)),
                    ),
                ),
            )
        } else if strategy == "paragraph"@ {
            Ok(contents(crate::chunking::chunks_of(crate::chunking::paragraphs(p.content@))))
        } else if strategy == "fixed_size"@ {
            Ok(
                contents(
                    crate::chunking::chunks_of(
                        crate::chunking::windows(
                            p.content@,
                            IMPORT_CHUNK_SIZE as int,
                            crate::chunking::stride(
                                IMPORT_CHUNK_SIZE as int,
                                IMPORT_CHUNK_OVERLAP as int,
                            ),
                            0,
                        ),
                    ),
                ),
            )
        } else {
            Err("Unknown chunk strategy: "@ + strategy)
        }
    } else {
        Err("Unknown import mode: "@ + mode)
    }
}

/// The tags of an imported document's memories: the given ones and one that names the batch.
pub open spec fn import_tags(tags: Option<Vec<String>>, batch_id: Seq<char>) -> Seq<Seq<char>> {
    (match tags {
        Some(v) => crate::text::texts(v@),
        None => seq![],
    }).push("import_batch:"@ + batch_id)
}

/// Confidence in an imported memory, in percent.
pub const IMPORT_CONFIDENCE: u32 = 100;

/// Heat that an imported memory starts with, in percent: more than what a stored one gets.
pub const IMPORT_HEAT: u32 = 200;

/// What an import stores.
#[derive(Debug)]
pub struct ImportPlan {
    /// The document itself, which every memory is linked to.
    pub document: String,
    /// The type of these links.
    pub edge_type: &'static str,
    /// One memory each, in order.
    pub chunks: Vec<String>,
    pub tags: Vec<String>,
    pub batch_id: String,
    /// In percent.
    pub confidence: u32,
    /// In percent.
    pub heat: u32,
    /// The session to file the memories under, which is created on first use.
    pub session_id: Option<String>,
}

/// Whether a plan stores these pieces of a document, under the tags of its batch.
pub open spec fn imports(plan: ImportPlan, p: ImportDocumentParams, parts: Seq<Seq<char>>) -> bool {
    &&& plan.document@ == p.content@
    &&& plan.edge_type@ == EXTRACTED_FROM@
    &&& crate::text::texts(plan.chunks@) == parts
    &&& crate::text::texts(plan.tags@) == import_tags(p.tags, plan.batch_id@)
    &&& plan.confidence == IMPORT_CONFIDENCE
    &&& plan.heat == IMPORT_HEAT
    &&& crate::text::opt_text(plan.session_id) == crate::text::opt_text(p.session_id)
}

fn content_texts(chunks: Vec<Chunk>) -> (r: Vec<String>)
    ensures
        crate::text::texts(r@) == contents(crate::chunking::chunk_texts(chunks@)),
{
    let mut r: Vec<String> = Vec::new();
    let mut i: usize = 0;
    while i < chunks.len()
        invariant
            i <= chunks@.len(),
            crate::text::texts(r@) == contents(
                crate::chunking::chunk_texts(chunks@.take(i as int)),
            ),
        decreases chunks@.len() - i,
    {
        let c = copy_of(chunks[i].content.as_str());
        assert(contents(crate::chunking::chunk_texts(chunks@.take(i + 1))) =~= contents(
            crate::chunking::chunk_texts(chunks@.take(i as int)),
        ).push(c@));
        r.push(c);
        i = i + 1;
    }
    assert(chunks@.take(chunks@.len() as int) =~= chunks@);
    r
}

fn pieces_of(p: &ImportDocumentParams) -> (r: Result<Vec<String>, String>)
    ensures
        pieces(*p) == (match r {
            Ok(v) => Ok(crate::text::texts(v@)),
            Err(m) => Err(m@),
        }),
{
    let mode = match &p.mode {
        Some(m) => copy_of(m.as_str()),
        None => copy_of("chunk"),
    };
    let strategy = match &p.chunk_strategy {
        Some(s) => copy_of(s.as_str()),
        None => copy_of("heading"),
    };
    if same(mode.as_str(), "whole") {
        let mut v: Vec<String> = Vec::new();
        v.push(copy_of(p.content.as_str()));
        assert(crate::text::texts(v@) =~= seq![p.content@]);
        return Ok(v);
    }
    if !same(mode.as_str(), "chunk") {
        let mut m = copy_of("Unknown import mode: ");
        m.append(mode.as_str());
        return Err(m);
    }
    let chunks = if same(strategy.as_str(), "heading") {
        chunk_by_heading(p.content.as_str())
    } else if same(strategy.as_str(), "paragraph") {
        chunk_by_paragraph(p.content.as_str())
    } else if same(strategy.as_str(), "fixed_size") {
        chunk_by_fixed_size(p.content.as_str(), IMPORT_CHUNK_SIZE, IMPORT_CHUNK_OVERLAP)
    } else {
        let mut m = copy_of("Unknown chunk strategy: ");
        m.append(strategy.as_str());
        return Err(m);
    };
    Ok(content_texts(chunks))
}

/// `uuid::Uuid::new_v4` in its hyphenated form: a fresh random identifier of 36 characters.
#[verifier::external_body]
fn fresh_id() -> (r: String)
    ensures
        r@.len() == 36,
{
    uuid::Uuid::new_v4().to_string()
}

/// What an import under a batch ID stores, or why the request cannot be carried out.
pub fn plan_import(params: &ImportDocumentParams, batch_id: &str) -> (r: Result<
    ImportPlan,
    Failure,
>)
    ensures
        match pieces(*params) {
            Ok(v) => r matches Ok(plan) && imports(plan, *params, v) && plan.batch_id@ == batch_id@,
            Err(m) => r matches Err(f) && f@ == seq![m],
        },
{
    let chunks = match pieces_of(params) {
        Err(m) => return Err(Failure::new(m)),
        Ok(v) => v,
    };
    let mut tags = match &params.tags {
        Some(v) => copy_texts(v),
        None => Vec::new(),
    };
    assert(crate::text::texts(tags@) =~= (match params.tags {
        Some(v) => crate::text::texts(v@),
        None => seq![],
    }));
    let mut tag = copy_of("import_batch:");
    tag.append(batch_id);
    tags.push(tag);
    Ok(
        ImportPlan {
            document: copy_of(params.content.as_str()),
            edge_type: EXTRACTED_FROM,
            chunks,
            tags,
            batch_id: copy_of(batch_id),
            confidence: IMPORT_CONFIDENCE,
            heat: IMPORT_HEAT,
            session_id: copy_opt(&params.session_id),
        },
    )
}

impl AlexandriaServer {
    /// What an import stores, under a batch ID of its own.
    pub fn do_import_document(&self, params: &ImportDocumentParams) -> (r: Result<ImportPlan, Failure>)
        ensures
            match pieces(*params) {
                Ok(v) => r matches Ok(plan) && imports(plan, *params, v) && plan.batch_id@.len()
                    == 36,
                Err(m) => r matches Err(f) && f@ == seq![m],
            },
    {
        let batch_id = fresh_id();
        plan_import(params, batch_id.as_str())
    }
}

// ---------------------------------------------------------------------------
// Sessions
// ---------------------------------------------------------------------------
/// A stored session.
#[derive(Debug)]
pub struct Session {
    pub external_id: String,
    pub agent_id: Option<String>,
    pub model: Option<String>,
    pub started_at: Option<Instant>,
    pub ended_at: Option<Instant>,
    pub summary: Option<String>,
    pub tags: Vec<String>,
}

/// A memory of a session.
#[derive(Debug)]
pub struct SessionMemory {
    pub id: String,
    pub content: String,
    pub tags: Vec<String>,
}

/// A session with its memories.
#[derive(Debug)]
pub struct SessionMemories {
    pub session: Session,
    pub memory_count: usize,
    pub memories: Vec<SessionMemory>,
}

/// The complaint about a session that does not exist.
pub open spec fn no_session(session_id: Seq<char>) -> Seq<Seq<char>> {
    seq!["Session not found: "@ + session_id]
}

fn session_missing(session_id: &str) -> (f: Failure)
    ensures
        f@ == no_session(session_id@),
{
    let mut m = copy_of("Session not found: ");
    m.append(session_id);
    Failure::new(m)
}

impl AlexandriaServer {
    /// A session and every memory stored in it, in the order storage gives them.
    pub fn do_get_session(
        &self,
        params: &GetSessionParams,
        session: Option<Session>,
        memories: &Vec<Fact>,
    ) -> (r: Result<SessionMemories, Failure>)
        ensures
            match session {
                None => r matches Err(f) && f@ == no_session(params.session_id@),
                Some(s) => r matches Ok(m) && m.session == s && m.memory_count == memories@.len()
                    && m.memories@.len() == memories@.len() && forall|i: int|
                    0 <= i < memories@.len() ==> {
                        let shown = #[trigger] m.memories@[i];
                        &&& shown.id@ == (match memories@[i].id {
                            Some(id) => id@,
                            None => ""@,
                        })
                        &&& shown.content@ == memories@[i].content@
                        &&& crate::text::texts(shown.tags@) == crate::text::texts(memories@[i].tags@)
                    },
            },
    {
        let session = match session {
            None => return Err(session_missing(params.session_id.as_str())),
            Some(s) => s,
        };
        let mut shown: Vec<SessionMemory> = Vec::new();
        let mut i: usize = 0;
        while i < memories.len()
            invariant
                i <= memories@.len(),
                shown@.len() == i,
                forall|k: int|
                    0 <= k < i ==> {
                        let m = #[trigger] shown@[k];
                        &&& m.id@ == (match memories@[k].id {
                            Some(id) => id@,
                            None => ""@,
                        })
                        &&& m.content@ == memories@[k].content@
                        &&& crate::text::texts(m.tags@) == crate::text::texts(memories@[k].tags@)
                    },
            decreases memories@.len() - i,
        {
            let f = &memories[i];
            let m = SessionMemory {
                id: id_text(f),
                content: copy_of(f.content.as_str()),
                tags: copy_texts(&f.tags),
            };
            shown.push(m);
            i = i + 1;
        }
        Ok(SessionMemories { session, memory_count: memories.len(), memories: shown })
    }

    /// The session as it was finalized, or the complaint that there is none.
    pub fn do_finalize_session(&self, params: &FinalizeSessionParams, updated: Option<Session>) -> (r:
        Result<Session, Failure>)
        ensures
            match updated {
                None => r matches Err(f) && f@ == no_session(params.session_id@),
                Some(s) => r matches Ok(session) && session == s,
            },
    {
        match updated {
            None => Err(session_missing(params.session_id.as_str())),
            Some(s) => Ok(s),
        }
    }
}

// ---------------------------------------------------------------------------
// Storing
// ---------------------------------------------------------------------------
/// Where a new memory goes among the clusters.
#[derive(Debug)]
pub enum Placement {
    /// Join the cluster of this ID; the new centroid starts from that of the cluster at `centroid_of`.
    Join { id: String, centroid_of: usize },
    /// Found a cluster of its own.
    Found,
}

/// Position of the first cluster of an ID.
pub open spec fn first_with_id(clusters: Seq<ClusterInfo>, id: Seq<char>) -> int
    decreases clusters.len(),
{
    if clusters.len() == 0 || clusters[0].id@ == id {
        0
    } else {
        1 + first_with_id(clusters.drop_first(), id)
    }
}

/// Where a memory goes: the closest cluster where it is similar enough, else a new one.
pub open spec fn placement_of(clusters: Seq<ClusterInfo>, threshold: i64) -> Option<int> {
    match crate::clusters::closest(clusters, clusters.len()) {
        Some(i) => if crate::ranking::reaches(clusters[i].similarity, threshold) {
            Some(i)
        } else {
            None
        },
        None => None,
    }
}

/// Who stored into a session: the agent and its model, as far as they are known.
#[derive(Debug)]
pub struct Attribution {
    pub agent_id: Option<String>,
    pub model: Option<String>,
}

/// An attribution as plain values.
#[verifier::ext_equal]
pub struct AttributionText {
    pub agent_id: Option<Seq<char>>,
    pub model: Option<Seq<char>>,
}

impl View for Attribution {
    type V = AttributionText;

    open spec fn view(&self) -> AttributionText {
        AttributionText {
            agent_id: crate::text::opt_text(self.agent_id),
            model: crate::text::opt_text(self.model),
        }
    }
}

/// The first of two values that is known.
pub open spec fn first_known(stored: Option<Seq<char>>, given: Option<Seq<char>>) -> Option<Seq<char>> {
    if stored is Some {
        stored
    } else {
        given
    }
}

/// What a session says of who stored into it, once `given` has arrived.
pub open spec fn attributed(stored: AttributionText, given: AttributionText) -> AttributionText {
    AttributionText {
        agent_id: first_known(stored.agent_id, given.agent_id),
        model: first_known(stored.model, given.model),
    }
}

/// The first known value wins whenever it arrives, and nothing overwrites it.
pub proof fn the_first_known_value_stays(
    stored: AttributionText,
    given: AttributionText,
    later: AttributionText,
)
    ensures
        stored.agent_id is Some ==> attributed(stored, given).agent_id == stored.agent_id,
        stored.model is Some ==> attributed(stored, given).model == stored.model,
        stored.agent_id is None ==> attributed(stored, given).agent_id == given.agent_id,
        stored.model is None ==> attributed(stored, given).model == given.model,
        attributed(attributed(stored, given), later) == attributed(
            stored,
            attributed(given, later),
        ),
{
}

fn first_of_two(stored: &Option<String>, given: &Option<String>) -> (r: Option<String>)
    ensures
        crate::text::opt_text(r) == first_known(
            crate::text::opt_text(*stored),
            crate::text::opt_text(*given),
        ),
{
    if stored.is_some() {
        copy_opt(stored)
    } else {
        copy_opt(given)
    }
}

/// What a session says of who stored into it, once a memory with `given` has been filed under it.
pub fn attribute(stored: &Attribution, given: &Attribution) -> (r: Attribution)
    ensures
        r@ == attributed(stored@, given@),
{
    Attribution {
        agent_id: first_of_two(&stored.agent_id, &given.agent_id),
        model: first_of_two(&stored.model, &given.model),
    }
}

/// Confidence in a stored memory, in percent.
pub const STORE_CONFIDENCE: u32 = 50;

/// Heat that a stored memory starts with, in percent.
pub const STORE_HEAT: u32 = 100;

/// Where a stored memory comes from.
pub const USER: &'static str = "user";

/// What storing a memory comes to.
#[derive(Debug)]
pub struct StorePlan {
    pub content: String,
    pub tags: Vec<String>,
    /// In percent.
    pub confidence: u32,
    /// In percent.
    pub heat: u32,
    /// The kind of the provenance to record.
    pub provenance: &'static str,
    pub placement: Placement,
    /// The session to file the memory under, which is created on first use.
    pub session_id: Option<String>,
    /// What the session learns of who stores; nothing without a session.
    pub attribution: Attribution,
}

impl AlexandriaServer {
    /// Where a memory goes among the clusters.
    pub fn assign_to_cluster_and_update(&self, clusters: &Vec<ClusterInfo>) -> (r: Placement)
        ensures
            match placement_of(clusters@, self.cluster_join_threshold) {
                None => r is Found,
                Some(i) => r matches Placement::Join { id, centroid_of } && id@ == clusters@[i].id@
                    && centroid_of == first_with_id(clusters@, clusters@[i].id@) && centroid_of
                    < clusters@.len(),
            },
    {
        match assign_to_cluster(clusters, self.cluster_join_threshold) {
            ClusterAssignment::NewCluster => Placement::Found,
            ClusterAssignment::Existing(id) => {
                let n = clusters.len();
                let mut k: usize = 0;
                proof {
                    crate::clusters::the_closest_is_the_best(clusters@, clusters@.len());
                    assert(clusters@.skip(0) =~= clusters@);
                }
                let ghost at = crate::clusters::closest(clusters@, clusters@.len())->0;
                while !same(clusters[k].id.as_str(), id.as_str())
                    invariant
                        k <= at < n == clusters@.len(),
                        id@ == clusters@[at].id@,
                        first_with_id(clusters@, id@) == k + first_with_id(
                            clusters@.skip(k as int),
                            id@,
                        ),
                    decreases clusters@.len() - k,
                {
                    assert(clusters@.skip(k as int).drop_first() =~= clusters@.skip(k + 1));
                    k = k + 1;
                }
                assert(first_with_id(clusters@.skip(k as int), id@) == 0);
                Placement::Join { id, centroid_of: k }
            },
        }
    }

    /// What storing a memory comes to, given the clusters and their similarity to it.
    pub fn do_store_memory(&self, params: &StoreMemoryParams, clusters: &Vec<ClusterInfo>) -> (r:
        StorePlan)
        ensures
            r.content@ == params.content@,
            r.confidence == STORE_CONFIDENCE,
            r.confidence == 50,
            r.heat == STORE_HEAT,
            r.heat == 100,
            r.provenance@ == USER@,
            r.provenance@ == "user"@,
            crate::text::texts(r.tags@) == (match params.tags {
                Some(v) => crate::text::texts(v@),
                None => seq![],
            }),
            crate::text::opt_text(r.session_id) == crate::text::opt_text(params.session_id),
            r.attribution@ == (if params.session_id is Some {
                AttributionText {
                    agent_id: crate::text::opt_text(params.agent_id),
                    model: crate::text::opt_text(params.model),
                }
            } else {
                AttributionText { agent_id: None, model: None }
            }),
            match placement_of(clusters@, self.cluster_join_threshold) {
                None => r.placement is Found,
                Some(i) => r.placement matches Placement::Join { id, centroid_of } && id@
                    == clusters@[i].id@ && centroid_of == first_with_id(
                    clusters@,
                    clusters@[i].id@,
                ),
            },
    {
        let tags = match &params.tags {
            Some(v) => copy_texts(v),
            None => Vec::new(),
        };
        assert(crate::text::texts(tags@) =~= (match params.tags {
            Some(v) => crate::text::texts(v@),
            None => seq![],
        }));
        let attribution = if params.session_id.is_some() {
            Attribution { agent_id: copy_opt(&params.agent_id), model: copy_opt(&params.model) }
        } else {
            Attribution { agent_id: None, model: None }
        };
        StorePlan {
            content: copy_of(params.content.as_str()),
            tags,
            confidence: STORE_CONFIDENCE,
            heat: STORE_HEAT,
            provenance: USER,
            placement: self.assign_to_cluster_and_update(clusters),
            session_id: copy_opt(&params.session_id),
            attribution,
        }
    }
}

} // verus!
