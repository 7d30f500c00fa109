use alexandria::hub::{
    cache_root, cached_path, fetch, CacheEnv, FetchAction, FetchEvent, HUB_URL,
};
use alexandria::migrate::{
    reembed, Lock, ReembedEvent, ReembedOutcome, Stage, Started, Target,
};

fn env(vars: &[(&str, &str)]) -> CacheEnv {
    let get = |k: &str| vars.iter().find(|(n, _)| *n == k).map(|(_, v)| v.to_string());
    CacheEnv {
        hf_hub_cache: get("HF_HUB_CACHE"),
        hf_home: get("HF_HOME"),
        xdg_cache_home: get("XDG_CACHE_HOME"),
        home: get("HOME"),
    }
}

#[test]
fn cache_root_precedence() {
    let all = [
        ("HF_HUB_CACHE", "/a"),
        ("HF_HOME", "/b"),
        ("XDG_CACHE_HOME", "/c"),
        ("HOME", "/d"),
    ];
    assert_eq!(cache_root(&env(&all)).unwrap(), "/a");
    assert_eq!(cache_root(&env(&all[1..])).unwrap(), "/b/hub");
    assert_eq!(cache_root(&env(&all[2..])).unwrap(), "/c/huggingface/hub");
    assert_eq!(
        cache_root(&env(&all[3..])).unwrap(),
        "/d/.cache/huggingface/hub"
    );
}

#[test]
fn cache_root_errors_rather_than_going_cwd_relative() {
    assert!(cache_root(&env(&[])).is_err());
    assert!(cache_root(&env(&[("HOME", "")])).is_err());
}

#[test]
fn cached_path_follows_refs_main() {
    assert_eq!(
        cached_path("/repo", &Some("abc123\n".to_string()), "1_Pooling/config.json").unwrap(),
        "/repo/snapshots/abc123/1_Pooling/config.json"
    );
}

#[test]
fn cached_path_none_without_refs() {
    assert!(cached_path("/nonexistent/repo", &None, "config.json").is_none());
}

#[test]
fn a_cached_file_needs_no_request() {
    let (f, action) = fetch("org/model", "config.json", &env(&[("HF_HUB_CACHE", "/c")])).unwrap();
    match action {
        FetchAction::ReadReference { path } => {
            assert_eq!(path, "/c/models--org--model/refs/main")
        }
        other => panic!("{other:?}"),
    }
    let (f, action) = f.step(FetchEvent::Reference(Some("abc\n".into()))).unwrap();
    assert!(matches!(action, FetchAction::Probe { .. }));
    let (_, action) = f.step(FetchEvent::Exists(true)).unwrap();
    match action {
        FetchAction::Done(Some(path)) => {
            assert_eq!(path, "/c/models--org--model/snapshots/abc/config.json")
        }
        other => panic!("{other:?}"),
    }
}

#[test]
fn a_missing_file_is_downloaded_under_the_lock() {
    let (f, _) = fetch("org/model", "config.json", &env(&[("HF_HUB_CACHE", "/c")])).unwrap();
    let (f, action) = f.step(FetchEvent::Reference(None)).unwrap();
    assert!(matches!(action, FetchAction::Lock { .. }));
    let (f, action) = f.step(FetchEvent::Locked).unwrap();
    assert!(matches!(action, FetchAction::ReadReference { .. }), "looks again under the lock");
    let (f, action) = f.step(FetchEvent::Reference(None)).unwrap();
    match action {
        FetchAction::AskRevision { url } => {
            assert_eq!(url, format!("{HUB_URL}/api/models/org/model"))
        }
        other => panic!("{other:?}"),
    }
    let (f, action) = f
        .step(FetchEvent::Description(r#"{"sha":"def","id":"org/model"}"#.into()))
        .unwrap();
    assert!(matches!(action, FetchAction::RecordRevision { .. }));
    let (f, action) = f.step(FetchEvent::Recorded).unwrap();
    match action {
        FetchAction::Download { url, path } => {
            assert_eq!(url, format!("{HUB_URL}/org/model/resolve/main/config.json"));
            assert_eq!(path, "/c/models--org--model/snapshots/def/config.json");
        }
        other => panic!("{other:?}"),
    }
    let (_, action) = f.step(FetchEvent::NotFound).unwrap();
    assert!(matches!(action, FetchAction::Done(None)));
}

fn target(model: &str, max_tokens: usize, force: bool) -> Target {
    Target {
        model: model.into(),
        max_tokens,
        batch_size: 2,
        force,
    }
}

fn held(model: &str, tokens: usize) -> Lock {
    Lock::Held {
        model: model.into(),
        tokens,
    }
}

#[test]
fn a_matching_lock_is_left_alone_unless_forced() {
    assert!(matches!(
        reembed(&held("m", 256), &target("m", 256, false)),
        Ok(Started::Skipped(ReembedOutcome::Skipped(_)))
    ));
    assert!(matches!(
        reembed(&held("m", 256), &target("m", 256, true)),
        Ok(Started::Running(_))
    ));
    assert!(reembed(&held("m", 512), &target("m", 256, true)).is_err());
    assert!(reembed(&Lock::Absent { facts: 3 }, &target("m", 256, false)).is_err());
}

#[test]
fn a_run_goes_through_its_batches_and_moves_the_lock_last() {
    let mut run = match reembed(&held("old", 256), &target("new", 256, false)) {
        Ok(Started::Running(r)) => r,
        other => panic!("{other:?}"),
    };
    let mut embedded = vec![];
    let mut locked_after = 0;
    loop {
        let event = match run.stage {
            Stage::DroppingIndex => ReembedEvent::IndexDropped,
            Stage::LoadingFacts => ReembedEvent::FactsLoaded { facts: 5 },
            Stage::Embedding { from, to } => {
                embedded.push((from, to));
                ReembedEvent::Embedded { vectors: to - from }
            }
            Stage::Writing { .. } => ReembedEvent::Written,
            Stage::ListingClusters => ReembedEvent::ClustersListed { clusters: 2 },
            Stage::Looking { cluster } => ReembedEvent::MembersLoaded { members: cluster },
            Stage::Dropping { .. } => ReembedEvent::ClusterDropped,
            Stage::Moving { .. } => ReembedEvent::CentroidMoved,
            Stage::Locking => {
                locked_after = run.updated;
                ReembedEvent::LockMoved
            }
            Stage::Finished => break,
        };
        run = run.step(event).unwrap();
    }
    assert_eq!(embedded, vec![(0, 2), (2, 4), (4, 5)]);
    assert_eq!(locked_after, 1, "the empty cluster was dropped, the other one moved");
    match run.outcome() {
        ReembedOutcome::Done { facts, clusters } => assert_eq!((facts, clusters), (5, 1)),
        other => panic!("{other:?}"),
    }
}

#[test]
fn a_short_batch_stops_the_run() {
    let run = match reembed(&held("old", 256), &target("new", 256, false)) {
        Ok(Started::Running(r)) => r,
        other => panic!("{other:?}"),
    };
    let run = run.step(ReembedEvent::IndexDropped).unwrap();
    let run = run.step(ReembedEvent::FactsLoaded { facts: 2 }).unwrap();
    assert!(run.step(ReembedEvent::Embedded { vectors: 1 }).is_err());
}

#[test]
fn a_description_without_a_revision_ends_the_fetch() {
    let asking = || {
        let (f, _) = fetch("org/model", "f", &env(&[("HF_HUB_CACHE", "/c")])).unwrap();
        let (f, _) = f.step(FetchEvent::Reference(None)).unwrap();
        let (f, _) = f.step(FetchEvent::Locked).unwrap();
        f.step(FetchEvent::Reference(None)).unwrap().0
    };
    for text in ["{}", "[]", r#"{"sha":7}"#] {
        let err = asking()
            .step(FetchEvent::Description(text.into()))
            .unwrap_err();
        assert_eq!(err.message(), "no sha in model info for org/model");
    }
    let err = asking()
        .step(FetchEvent::Description("oops".into()))
        .unwrap_err();
    assert_eq!(err.message(), "bad model info for org/model");
    assert_eq!(err.chain.len(), 2);
}
