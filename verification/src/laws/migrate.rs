//! What re-embedding is for: every fact and every cluster with the new model, or nothing is claimed.
use vstd::prelude::*;

use crate::migrate::{
    after_events, answers, gate, reembed_step, Lock, Reembed, ReembedEvent, Stage, Target,
};

verus! {

/// A re-embedding goes ahead onto another model, onto a higher limit of the same one, and onto the same
/// limit where it is forced. A lower limit is refused, a lock that matches is left alone, and facts
/// without a lock are not stamped with a model; an empty database has nothing to re-embed.
pub proof fn a_corpus_moves_to_what_differs(lock: Lock, target: Target)
    ensures
        lock matches Lock::Absent { facts } ==> {
            &&& facts == 0 ==> gate(lock, target) is Skipped
            &&& facts > 0 ==> gate(lock, target) is Refused
        },
        lock matches Lock::Held { model, tokens } ==> {
            &&& model@ != target.model@ ==> gate(lock, target) is Open
            &&& model@ == target.model@ && target.max_tokens > tokens ==> gate(lock, target) is Open
            &&& model@ == target.model@ && target.max_tokens < tokens ==> gate(lock, target)
                is Refused
            &&& model@ == target.model@ && target.max_tokens == tokens && target.force ==> gate(
                lock,
                target,
            ) is Open
            &&& model@ == target.model@ && target.max_tokens == tokens && !target.force ==> gate(
                lock,
                target,
            ) is Skipped
        },
{
}

/// A batch starts at the first fact, or where the last one ended, and is full unless it is the last; the
/// clusters follow once there are no facts left. Vectors are written only where there is one for each
/// fact of the batch.
pub proof fn batches_take_the_facts_in_turn(r: Reembed, e: ReembedEvent)
    requires
        r.valid(),
        answers(e, r.stage),
    ensures
        r.stage is DroppingIndex ==> (reembed_step(r, e) matches Ok(n) && n.stage is LoadingFacts),
        r.stage is LoadingFacts ==> (reembed_step(r, e) matches Ok(n) && n.facts == e->facts && (if n.facts
            == 0 {
            n.stage is ListingClusters
        } else {
            n.stage is Embedding && n.stage->Embedding_from == 0 && n.stage->Embedding_to == (
            if n.facts < r.batch_size {
                n.facts
            } else {
                r.batch_size
            })
        })),
        r.stage matches Stage::Embedding { from, to } ==> {
            &&& e->vectors == to - from ==> (reembed_step(r, e) matches Ok(n) && n.stage == (
            Stage::Writing { from, to }))
            &&& e->vectors != to - from ==> reembed_step(r, e) is Err
        },
        r.stage matches Stage::Writing { from, to } ==> (reembed_step(r, e) matches Ok(n) && n.facts
            == r.facts && (if to == r.facts {
            n.stage is ListingClusters
        } else {
            n.stage is Embedding && n.stage->Embedding_from == to && n.stage->Embedding_to == (
            if r.facts - to < r.batch_size {
                r.facts as int
            } else {
                to + r.batch_size
            })
        })),
{
}

/// Clusters are taken one after the other, each of them: one with members has its centroid moved and is
/// counted, an empty one is dropped, one without an ID is passed over, and the lock moves after the last.
pub proof fn clusters_are_taken_in_turn(r: Reembed, e: ReembedEvent)
    requires
        r.valid(),
        answers(e, r.stage),
    ensures
        r.stage is ListingClusters ==> (reembed_step(r, e) matches Ok(n) && n.clusters == e->clusters
            && n.updated == 0 && (if n.clusters == 0 {
            n.stage is Locking
        } else {
            n.stage == (Stage::Looking { cluster: 0 })
        })),
        r.stage matches Stage::Looking { cluster } ==> {
            &&& e matches ReembedEvent::MembersLoaded { members } ==> (reembed_step(r, e) matches Ok(
                n,
            ) && n.updated == r.updated && (if members == 0 {
                n.stage == (Stage::Dropping { cluster })
            } else {
                n.stage == (Stage::Moving { cluster })
            }))
            &&& e is NoId ==> (reembed_step(r, e) matches Ok(n) && n.updated == r.updated && (
            if cluster + 1 == r.clusters {
                n.stage is Locking
            } else {
                n.stage is Looking && n.stage->Looking_cluster == cluster + 1
            }))
        },
        r.stage matches Stage::Dropping { cluster } ==> (reembed_step(r, e) matches Ok(n) && n.updated
            == r.updated && (if cluster + 1 == r.clusters {
            n.stage is Locking
        } else {
            n.stage is Looking && n.stage->Looking_cluster == cluster + 1
        })),
        r.stage matches Stage::Moving { cluster } ==> (reembed_step(r, e) matches Ok(n) && n.updated
            == r.updated + 1 && (if cluster + 1 == r.clusters {
            n.stage is Locking
        } else {
            n.stage is Looking && n.stage->Looking_cluster == cluster + 1
        })),
        r.stage is Locking ==> (reembed_step(r, e) matches Ok(n) && n.stage is Finished && n.updated
            == r.updated && n.facts == r.facts),
{
}

/// The clusters that were looked at, in the order in which they were.
pub open spec fn looked_at(start: Reembed, events: Seq<ReembedEvent>) -> Seq<int>
    decreases events.len(),
{
    if events.len() == 0 {
        seq![]
    } else {
        let before = looked_at(start, events.drop_last());
        match after_events(start, events.drop_last()) {
            Some(r) => match r.stage {
                Stage::Looking { cluster } => before.push(cluster as int),
                _ => before,
            },
            None => before,
        }
    }
}

/// A run that finished has looked at every cluster, each once and in order.
pub proof fn a_finished_run_looked_at_every_cluster(start: Reembed, events: Seq<ReembedEvent>)
    requires
        start.valid(),
        start.stage is DroppingIndex,
    ensures
        after_events(start, events) matches Some(end) ==> {
            &&& end.valid()
            &&& looked_at(start, events) == Seq::new(
                (match end.stage {
                    Stage::Looking { cluster } => cluster as int,
                    Stage::Dropping { cluster } => cluster + 1,
                    Stage::Moving { cluster } => cluster + 1,
                    Stage::Locking => end.clusters as int,
                    Stage::Finished => end.clusters as int,
                    _ => 0,
                }) as nat,
                |i: int| i,
            )
        },
    decreases events.len(),
{
    if events.len() == 0 {
        assert(looked_at(start, events) =~= Seq::new(0, |i: int| i));
    } else if after_events(start, events) is Some {
        let front = events.drop_last();
        a_finished_run_looked_at_every_cluster(start, front);
        let r = after_events(start, front)->0;
        let e = events.last();
        crate::migrate::the_lock_moves_last(r, e);
        clusters_are_taken_in_turn(r, e);
        batches_take_the_facts_in_turn(r, e);
        let end = after_events(start, events)->0;
        let done = (match end.stage {
            Stage::Looking { cluster } => cluster as int,
            Stage::Dropping { cluster } => cluster + 1,
            Stage::Moving { cluster } => cluster + 1,
            Stage::Locking => end.clusters as int,
            Stage::Finished => end.clusters as int,
            _ => 0,
        }) as nat;
        assert(looked_at(start, events) =~= Seq::new(done, |i: int| i));
    }
}

} // verus!
