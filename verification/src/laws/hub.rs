//! What fetching a model file is for: the cached file where there is one, the right file where there is
//! none.
use vstd::prelude::*;

use crate::hub::{
    cache_dir, dashed, described, fetch_step, file_url, joined, model_url, repo_of, snapshot_of,
    Act, CacheEnv, Description, FetchEvent, FetchPhase, FetchState,
};
use crate::text::{begins, trim};

verus! {

/// A relative path is put below a base with one slash between them; an absolute one stands on its own.
pub proof fn a_path_lies_below_its_base(base: Seq<char>, part: Seq<char>)
    ensures
        part.len() > 0 && part[0] == '/' ==> joined(base, part) == part,
        !(part.len() > 0 && part[0] == '/') && base.len() > 0 && base.last() != '/' ==> joined(
            base,
            part,
        ) == base + seq!['/'] + part,
        !(part.len() > 0 && part[0] == '/') && base.len() > 0 && base.last() == '/' ==> joined(
            base,
            part,
        ) == base + part,
        base.len() == 0 ==> joined(base, part) == part,
{
    reveal_strlit("/");
    assert("/"@ =~= seq!['/']);
    if part.len() > 0 && part[0] == '/' {
        assert(part.take(1) =~= "/"@);
    }
    if begins(part, "/"@) {
        assert(part.take(1)[0] == '/');
    }
}

/// The cache is where the first variable says that is set to something, and nowhere without any.
pub proof fn the_first_variable_decides(env: CacheEnv)
    ensures
        env.hf_hub_cache matches Some(p) ==> (p@.len() > 0 ==> cache_dir(env) == Some(p@)),
        (env.hf_hub_cache is None || env.hf_hub_cache->0@.len() == 0) ==> {
            &&& env.hf_home matches Some(p) ==> (p@.len() > 0 ==> cache_dir(env) == Some(
                joined(p@, "hub"@),
            ))
            &&& (env.hf_home is None || env.hf_home->0@.len() == 0) ==> {
                &&& env.xdg_cache_home matches Some(p) ==> (p@.len() > 0 ==> cache_dir(env)
                    == Some(joined(p@, "huggingface/hub"@)))
                &&& (env.xdg_cache_home is None || env.xdg_cache_home->0@.len() == 0) ==> {
                    &&& env.home matches Some(p) ==> (p@.len() > 0 ==> cache_dir(env) == Some(
                        joined(p@, ".cache/huggingface/hub"@),
                    ))
                    &&& (env.home is None || env.home->0@.len() == 0) ==> cache_dir(env) is None
                }
            }
        },
{
}

/// A model's directory is named after it with each slash turned into two dashes and nothing else changed.
pub proof fn slashes_turn_into_dashes(a: Seq<char>, b: Seq<char>, c: char, root: Seq<char>)
    ensures
        dashed(a + b) == dashed(a) + dashed(b),
        c != '/' ==> dashed(seq![c]) == seq![c],
        dashed(seq!['/']) == seq!['-', '-'],
        dashed(seq![]) == Seq::<char>::empty(),
        repo_of(root, a) == joined(root, "models--"@ + dashed(a)),
    decreases b.len(),
{
    reveal_with_fuel(dashed, 2);
    assert(seq![c].drop_last() =~= seq![]);
    assert(seq!['/'].drop_last() =~= seq![]);
    assert(dashed(seq!['/']) =~= seq!['-', '-']);
    if c != '/' {
        assert(dashed(seq![c]) =~= seq![c]);
    }
    if b.len() == 0 {
        assert(a + b =~= a);
        assert(dashed(a) + dashed(b) =~= dashed(a));
    } else {
        slashes_turn_into_dashes(a, b.drop_last(), c, root);
        assert((a + b).drop_last() =~= a + b.drop_last());
        assert((a + b).last() == b.last());
        assert(dashed(a + b) =~= dashed(a) + dashed(b));
    }
}

/// What is cached is looked for at the recorded revision, and what is there is served from there without a
/// request.
pub proof fn the_cache_is_looked_at_first(s: FetchState, revision: String)
    ensures
        fetch_step(s, FetchEvent::Reference(Some(revision))) matches Ok(next) && {
            let path = joined(joined(joined(s.repo_dir, "snapshots"@), trim(revision@)), s.file);
            &&& next.1 == (Act::Probe { path })
            &&& next.0.path == path
            &&& next.0.phase == FetchPhase::Probing
            &&& next.0.locked == s.locked
            &&& fetch_step(next.0, FetchEvent::Exists(true)) matches Ok(end) && end.1 == (
            Act::Done { found: Some(path) }) && end.0.phase == FetchPhase::Finished
        },
        snapshot_of(s.repo_dir, revision@, s.file) == joined(
            joined(joined(s.repo_dir, "snapshots"@), trim(revision@)),
            s.file,
        ),
{
}

/// A miss takes the lock, and under the lock the cache is looked at again before anything is requested.
pub proof fn a_miss_takes_the_lock_and_looks_again(s: FetchState)
    requires
        !s.locked,
    ensures
        fetch_step(s, FetchEvent::Reference(None)) matches Ok(next) && next.1 == (Act::Lock {
            dir: s.repo_dir,
        }) && next.0.phase == FetchPhase::Locking,
        fetch_step(s, FetchEvent::Exists(false)) matches Ok(next) && next.1 == (Act::Lock {
            dir: s.repo_dir,
        }) && next.0.phase == FetchPhase::Locking,
        fetch_step(s, FetchEvent::Locked) matches Ok(next) && next.1 == (Act::ReadReference {
            path: joined(s.repo_dir, "refs/main"@),
        }) && next.0.locked && next.0.phase == FetchPhase::Reading,
{
}

/// A miss under the lock is downloaded: where the revision is not known it is asked for and recorded first.
/// The file lands where its revision says and is reported there; a file that the model does not have is
/// reported as none.
pub proof fn a_miss_under_the_lock_is_downloaded(s: FetchState, text: String)
    requires
        s.locked,
    ensures
        fetch_step(s, FetchEvent::Reference(None)) matches Ok(next) && next.1 == (Act::AskRevision {
            url: "https://huggingface.co"@ + "/api/models/"@ + s.model_id,
        }),
        fetch_step(s, FetchEvent::Exists(false)) matches Ok(next) && next.1 == (Act::Download {
            url: "https://huggingface.co"@ + "/"@ + s.model_id + "/resolve/main/"@ + s.file,
            path: s.path,
        }),
        described(text@) matches Description::Revision { revision } ==> (fetch_step(
            s,
            FetchEvent::Description(text),
        ) matches Ok(next) && {
            let path = joined(joined(joined(s.repo_dir, "snapshots"@), revision), s.file);
            &&& next.1 == (Act::RecordRevision {
                path: joined(s.repo_dir, "refs/main"@),
                revision,
            })
            &&& next.0.path == path
            &&& fetch_step(next.0, FetchEvent::Recorded) matches Ok(after) && after.1 == (
            Act::Download {
                url: "https://huggingface.co"@ + "/"@ + s.model_id + "/resolve/main/"@ + s.file,
                path,
            }) && after.0.path == path
        }),
        !(described(text@) is Revision) ==> fetch_step(s, FetchEvent::Description(text)) is Err,
        fetch_step(s, FetchEvent::Downloaded) matches Ok(end) && end.1 == (Act::Done {
            found: Some(s.path),
        }),
        fetch_step(s, FetchEvent::NotFound) matches Ok(end) && end.1 == (Act::Done { found: None }),
        crate::json::json_fault(text@) is None ==> (crate::json::json_string(text@, "/sha"@) matches Some(
            sha,
        ) ==> described(text@) == (Description::Revision { revision: sha })),
        crate::json::json_fault(text@) is Some || crate::json::json_string(text@, "/sha"@) is None
            ==> !(described(text@) is Revision),
{
}

/// A model and its files lie below its own address at the hub, whatever their names.
pub proof fn a_url_names_the_model_and_the_file(model_id: Seq<char>, file: Seq<char>)
    ensures
        model_url(model_id) == "https://huggingface.co"@ + "/api/models/"@ + model_id,
        file_url(model_id, file) == "https://huggingface.co"@ + "/"@ + model_id + "/resolve/main/"@
            + file,
{
}

} // verus!
