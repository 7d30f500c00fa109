//! Re-embedding every fact and cluster centroid with a new model or token limit, then moving the lock.
//!
//! Not transactional: a failure on the way leaves the lock on the old model and limit. The limit only
//! goes up. The vector index is dropped first, because it rejects vectors of another dimension.
use vstd::prelude::*;

use crate::failure::Failure;
use crate::numbers::size_text;
use crate::text::{copy_of, same};

verus! {

/// How a re-embedding ended.
#[derive(Debug)]
pub enum ReembedOutcome {
    /// Nothing to do; the text says why.
    Skipped(String),
    Done { facts: usize, clusters: usize },
}

/// What storage says of the embedding lock.
#[derive(Debug)]
pub enum Lock {
    /// There is none; this many facts exist.
    Absent { facts: usize },
    /// The model and token limit that the corpus was embedded with.
    Held { model: String, tokens: usize },
}

/// Where a re-embedding is going.
#[derive(Debug)]
pub struct Target {
    pub model: String,
    pub max_tokens: usize,
    /// Facts per call of the model; at least one.
    pub batch_size: usize,
    /// Re-embed even where the lock matches already.
    pub force: bool,
}

/// Whether a re-embedding goes ahead.
pub enum Gate {
    Refused { why: Seq<char> },
    Skipped { why: Seq<char> },
    Open,
}

/// A number in decimal.
pub open spec fn num(n: usize) -> Seq<char> {
    crate::numbers::decimal(n as nat)
}

/// Whether a re-embedding goes ahead: facts without a lock are not stamped with a model that may not
/// have made them, the limit of the same model is not lowered, and a lock that matches is left alone
/// unless forced.
pub open spec fn gate(lock: Lock, target: Target) -> Gate {
    match lock {
        Lock::Absent { facts } => if facts != 0 {
            Gate::Refused {
                why: "no embedding lock but "@ + num(facts)
                    + " fact(s) exist; the database predates the lock. Start the server once with config naming the model that produced them, then rerun"@,
            }
        } else {
            Gate::Skipped {
                why: "no embedding lock found (fresh database); just start the server"@,
            }
        },
        Lock::Held { model, tokens } => if model@ == target.model@ && target.max_tokens < tokens {
            Gate::Refused {
                why: "the corpus is embedded at "@ + num(tokens)
                    + " tokens and embedding.max_tokens is "@ + num(target.max_tokens)
                    + "; the limit is not lowered. Set embedding.max_tokens = "@ + num(tokens),
            }
        } else if model@ == target.model@ && tokens == target.max_tokens && !target.force {
            Gate::Skipped {
                why: "already on "@ + target.model@ + " at "@ + num(target.max_tokens)
                    + " tokens (pass --force to re-embed anyway)"@,
            }
        } else {
            Gate::Open
        },
    }
}

/// Where a re-embedding stands.
#[derive(Clone, Copy, Debug, PartialEq, Eq, Structural)]
pub enum Stage {
    /// Dropping the vector index.
    DroppingIndex,
    /// Loading the facts, deleted ones too.
    LoadingFacts,
    /// Embedding the facts from `from` up to `to`.
    Embedding { from: usize, to: usize },
    /// Writing the vectors of the facts from `from` up to `to`.
    Writing { from: usize, to: usize },
    /// Listing the clusters.
    ListingClusters,
    /// Looking at a cluster.
    Looking { cluster: usize },
    /// Dropping an empty cluster.
    Dropping { cluster: usize },
    /// Moving the centroid of a cluster.
    Moving { cluster: usize },
    /// Moving the lock.
    Locking,
    Finished,
}

/// A re-embedding in progress.
#[derive(Clone, Copy, Debug, PartialEq, Eq, Structural)]
pub struct Reembed {
    pub stage: Stage,
    pub batch_size: usize,
    /// Number of facts.
    pub facts: usize,
    /// Number of clusters.
    pub clusters: usize,
    /// Clusters whose centroid was moved.
    pub updated: usize,
}

/// What the last action brought.
#[derive(Clone, Copy, Debug, PartialEq, Eq, Structural)]
pub enum ReembedEvent {
    IndexDropped,
    FactsLoaded { facts: usize },
    /// The model returned this many vectors.
    Embedded { vectors: usize },
    Written,
    ClustersListed { clusters: usize },
    /// A cluster without an ID cannot be written to.
    NoId,
    MembersLoaded { members: usize },
    ClusterDropped,
    CentroidMoved,
    LockMoved,
}

/// Whether an event answers the action of a stage.
pub open spec fn answers(e: ReembedEvent, s: Stage) -> bool {
    match s {
        Stage::DroppingIndex => e is IndexDropped,
        Stage::LoadingFacts => e is FactsLoaded,
        Stage::Embedding { .. } => e is Embedded,
        Stage::Writing { .. } => e is Written,
        Stage::ListingClusters => e is ClustersListed,
        Stage::Looking { .. } => e is NoId || e is MembersLoaded,
        Stage::Dropping { .. } => e is ClusterDropped,
        Stage::Moving { .. } => e is CentroidMoved,
        Stage::Locking => e is LockMoved,
        Stage::Finished => false,
    }
}

impl Reembed {
    /// What holds of every re-embedding on its way.
    pub open spec fn valid(self) -> bool {
        &&& self.batch_size >= 1
        &&& match self.stage {
            Stage::DroppingIndex | Stage::LoadingFacts => self.facts == 0 && self.clusters == 0
                && self.updated == 0,
            Stage::Embedding { from, to } => from < to <= self.facts && self.clusters == 0
                && self.updated == 0,
            Stage::Writing { from, to } => from < to <= self.facts && self.clusters == 0
                && self.updated == 0,
            Stage::ListingClusters => self.clusters == 0 && self.updated == 0,
            Stage::Looking { cluster } => cluster < self.clusters && self.updated <= cluster,
            Stage::Dropping { cluster } => cluster < self.clusters && self.updated <= cluster,
            Stage::Moving { cluster } => cluster < self.clusters && self.updated <= cluster,
            Stage::Locking | Stage::Finished => self.updated <= self.clusters,
        }
    }
}

/// The stage that embeds the facts from `from` on, or the one after the last fact.
pub open spec fn batch_from(r: Reembed, from: int) -> Stage {
    if from >= r.facts {
        Stage::ListingClusters
    } else if r.facts - from <= r.batch_size {
        Stage::Embedding { from: from as usize, to: r.facts }
    } else {
        Stage::Embedding { from: from as usize, to: (from + r.batch_size) as usize }
    }
}

/// The stage that looks at a cluster, or the one after the last cluster.
pub open spec fn cluster_at(r: Reembed, cluster: int) -> Stage {
    if cluster >= r.clusters {
        Stage::Locking
    } else {
        Stage::Looking { cluster: cluster as usize }
    }
}

/// A step of a re-embedding: facts in batches, then the clusters one by one, and the lock last. An
/// empty cluster is dropped, because its centroid would keep the old dimension.
pub open spec fn reembed_step(r: Reembed, e: ReembedEvent) -> Result<Reembed, Seq<Seq<char>>> {
    match r.stage {
        Stage::DroppingIndex => Ok(Reembed { stage: Stage::LoadingFacts, ..r }),
        Stage::LoadingFacts => {
            let loaded = Reembed { facts: e->facts, ..r };
            Ok(Reembed { stage: batch_from(loaded, 0), ..loaded })
        },
        Stage::Embedding { from, to } => if e->vectors != to - from {
            Err(
                seq![
                    "provider returned "@ + num(e->vectors) + " embeddings for "@ + num(
                        (to - from) as usize,
                    ) + " texts"@,
                ],
            )
        } else {
            Ok(Reembed { stage: Stage::Writing { from, to }, ..r })
        },
        Stage::Writing { from, to } => Ok(Reembed { stage: batch_from(r, to as int), ..r }),
        Stage::ListingClusters => {
            let listed = Reembed { clusters: e->clusters, ..r };
            Ok(Reembed { stage: cluster_at(listed, 0), ..listed })
        },
        Stage::Looking { cluster } => match e {
            ReembedEvent::MembersLoaded { members } => Ok(
                Reembed {
                    stage: if members == 0 {
                        Stage::Dropping { cluster }
                    } else {
                        Stage::Moving { cluster }
                    },
                    ..r
                },
            ),
            _ => Ok(Reembed { stage: cluster_at(r, cluster + 1), ..r }),
        },
        Stage::Dropping { cluster } => Ok(Reembed { stage: cluster_at(r, cluster + 1), ..r }),
        Stage::Moving { cluster } => {
            let moved = Reembed { updated: (r.updated + 1) as usize, ..r };
            Ok(Reembed { stage: cluster_at(moved, cluster + 1), ..moved })
        },
        _ => Ok(Reembed { stage: Stage::Finished, ..r }),
    }
}

impl View for Reembed {
    type V = Reembed;

    open spec fn view(&self) -> Reembed {
        *self
    }
}

/// What the start of a re-embedding comes to.
#[derive(Debug)]
pub enum Started {
    Skipped(ReembedOutcome),
    Running(Reembed),
}

/// Starts a re-embedding: refused, skipped with a reason, or running from its first stage.
pub fn reembed(lock: &Lock, target: &Target) -> (r: Result<Started, Failure>)
    requires
        target.batch_size >= 1,
    ensures
        match gate(*lock, *target) {
            Gate::Refused { why } => r matches Err(f) && f@ == seq![why],
            Gate::Skipped { why } => r matches Ok(Started::Skipped(ReembedOutcome::Skipped(m)))
                && m@ == why,
            Gate::Open => r matches Ok(Started::Running(run)) && run == (Reembed {
                stage: Stage::DroppingIndex,
                batch_size: target.batch_size,
                facts: 0,
                clusters: 0,
                updated: 0,
            }) && run.valid(),
        },
{
    match lock {
        Lock::Absent { facts } => {
            if *facts != 0 {
                let mut m = copy_of("no embedding lock but ");
                let n = size_text(*facts);
                m.append(n.as_str());
                m.append(
                    " fact(s) exist; the database predates the lock. Start the server once with config naming the model that produced them, then rerun",
                );
                return Err(Failure::new(m));
            }
            Ok(
                Started::Skipped(
                    ReembedOutcome::Skipped(
                        copy_of("no embedding lock found (fresh database); just start the server"),
                    ),
                ),
            )
        },
        Lock::Held { model, tokens } => {
            let same_model = same(model.as_str(), target.model.as_str());
            if same_model && target.max_tokens < *tokens {
                let t = size_text(*tokens);
                let x = size_text(target.max_tokens);
                let mut m = copy_of("the corpus is embedded at ");
                m.append(t.as_str());
                m.append(" tokens and embedding.max_tokens is ");
                m.append(x.as_str());
                m.append("; the limit is not lowered. Set embedding.max_tokens = ");
                m.append(t.as_str());
                return Err(Failure::new(m));
            }
            if same_model && *tokens == target.max_tokens && !target.force {
                let x = size_text(target.max_tokens);
                let mut m = copy_of("already on ");
                m.append(target.model.as_str());
                m.append(" at ");
                m.append(x.as_str());
                m.append(" tokens (pass --force to re-embed anyway)");
                return Ok(Started::Skipped(ReembedOutcome::Skipped(m)));
            }
            Ok(
                Started::Running(
                    Reembed {
                        stage: Stage::DroppingIndex,
                        batch_size: target.batch_size,
                        facts: 0,
                        clusters: 0,
                        updated: 0,
                    },
                ),
            )
        },
    }
}

impl Reembed {
    fn batch(self, from: usize) -> (r: Reembed)
        requires
            from <= self.facts,
        ensures
            r == (Reembed { stage: batch_from(self, from as int), ..self }),
    {
        let stage = if from >= self.facts {
            Stage::ListingClusters
        } else if self.facts - from <= self.batch_size {
            Stage::Embedding { from, to: self.facts }
        } else {
            Stage::Embedding { from, to: from + self.batch_size }
        };
        Reembed { stage, ..self }
    }

    fn after_cluster(self, cluster: usize) -> (r: Reembed)
        requires
            cluster < self.clusters,
        ensures
            r == (Reembed { stage: cluster_at(self, cluster + 1), ..self }),
    {
        let next = cluster + 1;
        let stage = if next >= self.clusters {
            Stage::Locking
        } else {
            Stage::Looking { cluster: next }
        };
        Reembed { stage, ..self }
    }

    /// The next stage, given what the last action brought.
    pub fn step(self, event: ReembedEvent) -> (r: Result<Reembed, Failure>)
        requires
            self.valid(),
            answers(event, self.stage),
        ensures
            crate::failure::seen(r) == reembed_step(self, event),
            r matches Ok(next) ==> next.valid(),
    {
        match self.stage {
            Stage::DroppingIndex => Ok(Reembed { stage: Stage::LoadingFacts, ..self }),
            Stage::LoadingFacts => {
                let facts = match event {
                    ReembedEvent::FactsLoaded { facts } => facts,
                    _ => 0,
                };
                let loaded = Reembed { facts, ..self };
                Ok(loaded.batch(0))
            },
            Stage::Embedding { from, to } => {
                let vectors = match event {
                    ReembedEvent::Embedded { vectors } => vectors,
                    _ => 0,
                };
                if vectors != to - from {
                    let mut m = copy_of("provider returned ");
                    let n = size_text(vectors);
                    m.append(n.as_str());
                    m.append(" embeddings for ");
                    let k = size_text(to - from);
                    m.append(k.as_str());
                    m.append(" texts");
                    return Err(Failure::new(m));
                }
                Ok(Reembed { stage: Stage::Writing { from, to }, ..self })
            },
            Stage::Writing { from: _, to } => Ok(self.batch(to)),
            Stage::ListingClusters => {
                let clusters = match event {
                    ReembedEvent::ClustersListed { clusters } => clusters,
                    _ => 0,
                };
                let stage = if clusters == 0 {
                    Stage::Locking
                } else {
                    Stage::Looking { cluster: 0 }
                };
                Ok(Reembed { stage, clusters, ..self })
            },
            Stage::Looking { cluster } => match event {
                ReembedEvent::MembersLoaded { members } => {
                    let stage = if members == 0 {
                        Stage::Dropping { cluster }
                    } else {
                        Stage::Moving { cluster }
                    };
                    Ok(Reembed { stage, ..self })
                },
                _ => Ok(self.after_cluster(cluster)),
            },
            Stage::Dropping { cluster } => Ok(self.after_cluster(cluster)),
            Stage::Moving { cluster } => {
                let moved = Reembed { updated: self.updated + 1, ..self };
                Ok(moved.after_cluster(cluster))
            },
            _ => Ok(Reembed { stage: Stage::Finished, ..self }),
        }
    }

    /// How a finished re-embedding ended.
    pub fn outcome(&self) -> (r: ReembedOutcome)
        requires
            self.stage is Finished,
        ensures
            r == (ReembedOutcome::Done { facts: self.facts, clusters: self.updated }),
    {
        ReembedOutcome::Done { facts: self.facts, clusters: self.updated }
    }
}

/// The lock moves last: it is reached only from the last of the clusters or from an empty list of them,
/// and the clusters only once no fact is left.
pub proof fn the_lock_moves_last(r: Reembed, e: ReembedEvent)
    requires
        r.valid(),
        answers(e, r.stage),
    ensures
        reembed_step(r, e) matches Ok(next) ==> {
            &&& next.valid()
            &&& next.stage is Locking ==> match r.stage {
                Stage::ListingClusters => next.clusters == 0,
                Stage::Looking { cluster } => cluster + 1 == r.clusters,
                Stage::Dropping { cluster } => cluster + 1 == r.clusters,
                Stage::Moving { cluster } => cluster + 1 == r.clusters,
                _ => false,
            }
            &&& next.stage is ListingClusters ==> match r.stage {
                Stage::LoadingFacts => next.facts == 0,
                Stage::Writing { to, .. } => to == r.facts,
                _ => false,
            }
            &&& next.stage is Finished ==> r.stage is Locking
        },
{
}

/// Batches follow one another without gaps: what is embedded is written, and the next batch starts
/// where the last one ended.
pub proof fn batches_leave_no_gap(r: Reembed, e: ReembedEvent)
    requires
        r.valid(),
        answers(e, r.stage),
    ensures
        reembed_step(r, e) matches Ok(next) ==> (next.stage matches Stage::Embedding { from, to } ==> {
            &&& to - from <= r.batch_size
            &&& r.stage is LoadingFacts ==> from == 0
            &&& r.stage matches Stage::Writing { to: last, .. } ==> from == last
            &&& r.stage is LoadingFacts || r.stage is Writing
        }),
        reembed_step(r, e) matches Ok(next) ==> (r.stage matches Stage::Embedding { from, to }
            ==> next.stage == (Stage::Writing { from, to })),
{
}

// ---------------------------------------------------------------------------
// Whole runs
// ---------------------------------------------------------------------------
/// Where a re-embedding stands after some events, as long as each of them answered the action before it
/// and no step failed.
pub open spec fn after_events(start: Reembed, events: Seq<ReembedEvent>) -> Option<Reembed>
    decreases events.len(),
{
    if events.len() == 0 {
        Some(start)
    } else {
        match after_events(start, events.drop_last()) {
            Some(r) => if answers(events.last(), r.stage) {
                match reembed_step(r, events.last()) {
                    Ok(next) => Some(next),
                    Err(_) => None,
                }
            } else {
                None
            },
            None => None,
        }
    }
}

/// The whole numbers from `from` up to `to`.
pub open spec fn numbers(from: int, to: int) -> Seq<int> {
    Seq::new((to - from) as nat, |i: int| from + i)
}

/// The facts whose vectors were written, in the order of writing.
pub open spec fn written(start: Reembed, events: Seq<ReembedEvent>) -> Seq<int>
    decreases events.len(),
{
    if events.len() == 0 {
        seq![]
    } else {
        let before = written(start, events.drop_last());
        match after_events(start, events.drop_last()) {
            Some(r) => match r.stage {
                Stage::Writing { from, to } => before + numbers(from as int, to as int),
                _ => before,
            },
            None => before,
        }
    }
}

/// How many centroids were moved.
pub open spec fn centroids_moved(events: Seq<ReembedEvent>) -> int
    decreases events.len(),
{
    if events.len() == 0 {
        0
    } else {
        centroids_moved(events.drop_last()) + if events.last() is CentroidMoved {
            1int
        } else {
            0int
        }
    }
}

/// How many facts are done at a stage: the first ones up to the batch that is under way.
pub open spec fn facts_done(r: Reembed) -> int {
    match r.stage {
        Stage::DroppingIndex | Stage::LoadingFacts => 0,
        Stage::Embedding { from, .. } => from as int,
        Stage::Writing { from, .. } => from as int,
        _ => r.facts as int,
    }
}

/// However a run goes on, the facts are written each once and in order, and the lock has moved only
/// where all of them are written: a run that breaks off earlier leaves the lock where it was.
pub proof fn every_fact_is_written_before_the_lock_moves(
    start: Reembed,
    events: Seq<ReembedEvent>,
)
    requires
        start.valid(),
        start.stage is DroppingIndex,
    ensures
        after_events(start, events) matches Some(end) ==> {
            &&& end.valid()
            &&& end.batch_size == start.batch_size
            &&& written(start, events) == numbers(0, facts_done(end))
            &&& end.updated == centroids_moved(events)
            &&& forall|i: int|
                0 <= i < events.len() && #[trigger] events[i] is LockMoved ==> i == events.len() - 1
                    && end.stage is Finished && written(start, events) == numbers(
                    0,
                    end.facts as int,
                )
        },
    decreases events.len(),
{
    if events.len() == 0 {
        assert(written(start, events) =~= numbers(0, 0));
    } else if after_events(start, events) is Some {
        let front = events.drop_last();
        every_fact_is_written_before_the_lock_moves(start, front);
        let r = after_events(start, front)->0;
        let end = after_events(start, events)->0;
        let e = events.last();
        the_lock_moves_last(r, e);
        batches_leave_no_gap(r, e);
        assert(written(start, events) =~= numbers(0, facts_done(end)));
        assert forall|i: int|
            0 <= i < events.len() && #[trigger] events[i] is LockMoved implies i == events.len() - 1
            && end.stage is Finished && written(start, events) == numbers(0, end.facts as int) by {
            if i < front.len() {
                assert(front[i] == events[i]);
                assert(r.stage is Finished);
            }
        }
    }
}

/// A corpus is never re-embedded at a lower limit of the same model.
pub proof fn the_limit_is_not_lowered(lock: Lock, target: Target)
    ensures
        gate(lock, target) is Open ==> (lock matches Lock::Held { model, tokens } && (model@
            == target.model@ ==> target.max_tokens >= tokens)),
{
}

} // verus!
