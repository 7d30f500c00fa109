use alexandria::clusters::ClusterInfo;
use alexandria::delivery::{
    collect_delivered, due_reminders_summary, due_sample_size, list_query, CancelDecision,
    ClaimOutcome, RowDecision, SkipReason,
};
use alexandria::failure::{error_message, Failure};
use alexandria::memories::{
    attribute, plan_import, update_embedding, update_outcome, Attribution, Fact, Placement, Session,
    UpdateMemoryParams,
};
use alexandria::ranking::score_of_bits;
use alexandria::reminder_rows::{spec_from_reminder, Reminder, CRON, ONCE, PATTERN};
use alexandria::reminders::normalize_cron;
use alexandria::server::{tool_json, AlexandriaServer, RemindersSettings, ToolReply};
use alexandria::time::{overdue_by, rfc3339_utc, Instant, Zone};
use alexandria::tools::{
    CancelReminderParams, CheckRemindersParams, FinalizeSessionParams, GetSessionParams,
    ImportDocumentParams, ListRemindersParams, ReminderPatternParams, RetrieveMemoriesParams,
    SetReminderParams, StoreMemoryParams,
};
use chrono::{TimeZone, Utc};

fn score(x: f32) -> i64 {
    score_of_bits(x.to_bits())
}

fn utc(y: i32, mo: u32, d: u32, h: u32, mi: u32) -> Instant {
    let at = Utc.with_ymd_and_hms(y, mo, d, h, mi, 0).unwrap();
    Instant::new(at.timestamp(), 0).unwrap()
}

fn server() -> AlexandriaServer {
    AlexandriaServer::new(
        score(0.75),
        score(0.3),
        score(0.6),
        RemindersSettings {
            tz: Zone::named("Europe/Stockholm").unwrap(),
            escalation_hours: 24,
        },
    )
}

// --- failures ---

#[test]
fn flattens_chain_and_collapses_whitespace() {
    let err = normalize_cron("61 99 * * *").unwrap_err();
    assert_eq!(
        err.message(),
        "invalid cron expression \"61 99 * * *\"",
        "top-level context alone must not be what the user sees"
    );

    let msg = error_message(&err);
    assert!(
        msg.contains("invalid cron expression \"61 99 * * *\""),
        "message lost its context: {msg}"
    );
    assert!(
        msg.contains("Minutes must be less than 59"),
        "message lost the underlying cause: {msg}"
    );
    assert!(
        !msg.contains('\n') && !msg.contains("  "),
        "message must stay on one line: {msg:?}"
    );
}

#[test]
fn a_tool_answers_with_json_text_or_an_error() {
    match tool_json(Ok("{\"a\":1}".to_string())) {
        ToolReply::Structured(s) => assert_eq!(s, "{\"a\":1}"),
        other => panic!("{other:?}"),
    }
    match tool_json(Ok("plain".to_string())) {
        ToolReply::Text { payload, complaint } => {
            assert_eq!(payload, "plain");
            assert!(!complaint.is_empty());
        }
        other => panic!("{other:?}"),
    }
    match tool_json(Err(Failure::caused("top".into(), "the\n  cause".into()))) {
        ToolReply::Error { message } => assert_eq!(message, "top: the cause"),
        other => panic!("{other:?}"),
    }
}

// --- setting reminders ---

fn params() -> SetReminderParams {
    SetReminderParams {
        message: "water the plants".into(),
        due_at: None,
        pattern: None,
        cron: None,
        target_project: None,
        prov_project: None,
        session_id: None,
        note: None,
    }
}

fn now() -> Instant {
    utc(2026, 9, 10, 12, 0)
}

#[test]
fn a_request_names_exactly_one_schedule() {
    let err = server().do_set_reminder(&params(), now()).unwrap_err();
    assert_eq!(
        err.message(),
        "provide exactly one of due_at, pattern, or cron (got none)"
    );
    let mut two = params();
    two.due_at = Some("2026-09-11T09:00".into());
    two.cron = Some("0 9 * * *".into());
    let err = server().do_set_reminder(&two, now()).unwrap_err();
    assert_eq!(
        err.message(),
        "provide exactly one of due_at, pattern, or cron (got due_at + cron)"
    );
}

#[test]
fn blank_messages_and_targets_are_refused() {
    let mut p = params();
    p.due_at = Some("2026-09-11T09:00".into());
    p.message = " \n ".into();
    assert!(server()
        .do_set_reminder(&p, now())
        .unwrap_err()
        .message()
        .starts_with("message must not be empty"));
    p.message = "m".into();
    p.target_project = Some("  ".into());
    assert!(server()
        .do_set_reminder(&p, now())
        .unwrap_err()
        .message()
        .starts_with("target_project must be a non-empty project name"));
}

#[test]
fn a_one_shot_is_stored_at_its_instant() {
    let mut p = params();
    p.due_at = Some("2026-09-11T09:00".into());
    let set = server().do_set_reminder(&p, now()).unwrap();
    assert_eq!(set.row.schedule_kind, ONCE);
    assert_eq!(set.row.due_at, Some(utc(2026, 9, 11, 7, 0)));
    assert_eq!(set.row.next_due_at, Some(utc(2026, 9, 11, 7, 0)));
    assert_eq!(set.schedule, "one-shot at 2026-09-11 07:00 UTC");
    assert_eq!(set.timezone, "Europe/Stockholm");
    assert_eq!(set.warning, None);

    p.due_at = Some("2020-01-01T00:00:00Z".into());
    let past = server().do_set_reminder(&p, now()).unwrap();
    assert!(past.warning.unwrap().contains("is in the past"));
}

#[test]
fn a_pattern_is_stored_so_that_it_reads_back() {
    let mut p = params();
    p.pattern = Some(ReminderPatternParams {
        freq: "Weekly".into(),
        time: "9:05".into(),
        weekdays: Some(vec!["Friday".into(), "mon".into()]),
        day_of_month: None,
    });
    let set = server().do_set_reminder(&p, now()).unwrap();
    assert_eq!(set.row.schedule_kind, PATTERN);
    assert_eq!(set.row.time_of_day.as_deref(), Some("09:05"));
    assert_eq!(set.row.weekdays, vec!["fri", "mon"]);
    assert_eq!(set.next_fire_preview.len(), 3);
    assert_eq!(set.row.next_due_at, Some(utc(2026, 9, 11, 7, 5)));

    let mut row = stored();
    row.schedule_kind = set.row.schedule_kind;
    row.freq = set.row.freq;
    row.time_of_day = set.row.time_of_day;
    row.weekdays = set.row.weekdays;
    assert!(spec_from_reminder(&row).is_ok());
}

#[test]
fn a_schedule_that_never_fires_is_refused() {
    let mut p = params();
    p.cron = Some("0 0 12 * * * 2020".into());
    let err = server().do_set_reminder(&p, now()).unwrap_err();
    assert!(err.message().contains("never fires again"), "{err:?}");
}

#[test]
fn both_day_fields_draw_a_warning() {
    let mut p = params();
    p.cron = Some("0 9 13 * FRI".into());
    let set = server().do_set_reminder(&p, now()).unwrap();
    assert_eq!(set.row.schedule_kind, CRON);
    assert_eq!(set.row.cron_expr.as_deref(), Some("0 0 9 13 * FRI"));
    assert!(set.warning.unwrap().contains("ANDed"));
}

// --- delivering reminders ---

fn stored() -> Reminder {
    Reminder {
        id: Some("reminder:1".into()),
        message: "m".into(),
        target_project: None,
        prov_project: None,
        prov_session_id: None,
        note: None,
        schedule_kind: ONCE.into(),
        due_at: Some(utc(2026, 9, 10, 11, 0)),
        freq: None,
        time_of_day: None,
        weekdays: vec![],
        day_of_month: None,
        cron_expr: None,
        next_due_at: Some(utc(2026, 9, 10, 11, 0)),
        status: "pending".into(),
        created_at: None,
        cancelled_at: None,
        last_delivered_at: None,
        delivered_count: 0,
    }
}

fn from(project: Option<&str>) -> CheckRemindersParams {
    CheckRemindersParams {
        project: project.map(String::from),
    }
}

#[test]
fn a_due_one_shot_is_claimed_and_done() {
    match server().check_row(&stored(), &from(None), now()) {
        RowDecision::Claim {
            id,
            expected,
            new_next,
            delivery,
        } => {
            assert_eq!(id, "reminder:1");
            assert_eq!(expected, utc(2026, 9, 10, 11, 0));
            assert_eq!(new_next, None);
            assert_eq!(delivery.target, "global");
            assert!(!delivery.recurring && !delivery.escalated);
            assert_eq!(delivery.missed_occurrences, 0);
            assert_eq!(delivery.due_at, "2026-09-10T11:00:00Z");
            assert!(delivery.due_at_local.contains("13:00"));
        }
        other => panic!("{other:?}"),
    }
}

#[test]
fn downtime_is_coalesced_into_one_delivery() {
    let mut r = stored();
    r.schedule_kind = CRON.into();
    r.cron_expr = Some("0 0 12 * * *".into());
    r.next_due_at = Some(utc(2026, 9, 7, 10, 0));
    // Noon in Stockholm is 10:00 UTC in September; now is Sep 10, 12:00 UTC.
    match server().check_row(&r, &from(None), now()) {
        RowDecision::Claim {
            new_next, delivery, ..
        } => {
            assert_eq!(delivery.missed_occurrences, 3);
            assert!(delivery.recurring);
            assert_eq!(new_next, Some(utc(2026, 9, 11, 10, 0)));
        }
        other => panic!("{other:?}"),
    }
}

#[test]
fn a_project_reminder_waits_for_its_project_then_escalates() {
    let mut r = stored();
    r.target_project = Some("alpha".into());
    assert!(matches!(
        server().check_row(&r, &from(Some("beta")), now()),
        RowDecision::Hold
    ));
    assert!(matches!(
        server().check_row(&r, &from(None), now()),
        RowDecision::Hold
    ));
    match server().check_row(&r, &from(Some("alpha")), now()) {
        RowDecision::Claim { delivery, .. } => assert!(!delivery.escalated),
        other => panic!("{other:?}"),
    }
    // Exactly the window: inclusive.
    let day_later = utc(2026, 9, 11, 11, 0);
    match server().check_row(&r, &from(Some("beta")), day_later) {
        RowDecision::Claim { delivery, .. } => assert!(delivery.escalated),
        other => panic!("{other:?}"),
    }
    assert!(overdue_by(day_later, utc(2026, 9, 10, 11, 0), 24));
    assert!(!overdue_by(day_later, utc(2026, 9, 10, 11, 1), 24));
}

#[test]
fn rows_that_cannot_be_handled_are_skipped_with_a_reason() {
    let mut no_id = stored();
    no_id.id = None;
    assert!(matches!(
        server().check_row(&no_id, &from(None), now()),
        RowDecision::Skip(SkipReason::NoId)
    ));
    let mut broken = stored();
    broken.schedule_kind = "never".into();
    assert!(matches!(
        server().check_row(&broken, &from(None), now()),
        RowDecision::Skip(SkipReason::Unreadable(_))
    ));
    let mut undated = stored();
    undated.next_due_at = None;
    assert!(matches!(
        server().check_row(&undated, &from(None), now()),
        RowDecision::Skip(SkipReason::NoDueTime)
    ));
}

#[test]
fn a_landed_claim_leaves_no_second_one_to_win() {
    let mut daily = stored();
    daily.schedule_kind = CRON.into();
    daily.cron_expr = Some("0 0 12 * * *".into());
    daily.next_due_at = Some(utc(2026, 9, 7, 10, 0));
    // Two checks that read the same row make the same claim ...
    let rows = vec![stored(), daily];
    let here = server().do_check_reminders(&rows, &from(Some("alpha")), now());
    let there = server().do_check_reminders(&rows, &from(Some("beta")), now());
    for (a, b) in here.iter().zip(&there) {
        match (a, b) {
            (
                RowDecision::Claim { expected, new_next, .. },
                RowDecision::Claim { expected: other, .. },
            ) => {
                assert_eq!(expected, other);
                // ... and once it has landed, the row is done or due at another time.
                assert_ne!(*new_next, Some(*expected));
            }
            other => panic!("{other:?}"),
        }
    }
}

#[test]
fn settings_change_one_at_a_time() {
    let s = server()
        .with_retrieve_min_similarity(score(0.42))
        .with_cohesion_floor(score(0.5))
        .with_reminders_config(RemindersSettings {
            tz: Zone::utc(),
            escalation_hours: 0,
        });
    assert_eq!(s.retrieve_min_similarity, score(0.42));
    assert_eq!(s.cohesion_floor, score(0.5));
    assert_eq!(s.cluster_join_threshold, score(0.75));
    assert_eq!(s.activation_top_n, 3);
    assert_eq!(s.reminders.tz.name(), "UTC");
    // Without a window every due project reminder escalates.
    let mut r = stored();
    r.target_project = Some("alpha".into());
    match s.check_row(&r, &from(Some("beta")), now()) {
        RowDecision::Claim { delivery, .. } => assert!(delivery.escalated),
        other => panic!("{other:?}"),
    }
}

#[test]
fn only_won_claims_are_delivered() {
    let rows = vec![stored(), stored(), stored()];
    let decisions = server().do_check_reminders(&rows, &from(None), now());
    let delivered = collect_delivered(
        decisions,
        &vec![ClaimOutcome::Won, ClaimOutcome::Lost, ClaimOutcome::Failed],
    );
    assert_eq!(delivered.len(), 1);
}

// --- listing and cancelling ---

fn asked(status: Option<&str>, limit: Option<i64>, offset: Option<i64>) -> ListRemindersParams {
    ListRemindersParams {
        status: status.map(String::from),
        target_project: None,
        limit,
        offset,
    }
}

#[test]
fn a_list_request_is_bounded() {
    let q = list_query(&asked(None, None, None));
    assert_eq!(q.status.as_deref(), Some("pending"));
    assert_eq!((q.limit, q.offset), (50, 0));
    let q = list_query(&asked(Some("all"), Some(9_999), Some(-4)));
    assert_eq!(q.status, None);
    assert_eq!((q.limit, q.offset), (500, 0));
    assert_eq!(list_query(&asked(None, Some(0), None)).limit, 1);
}

#[test]
fn an_unreadable_row_is_listed_with_its_fault() {
    let mut broken = stored();
    broken.schedule_kind = "never".into();
    let q = list_query(&asked(None, Some(2), Some(2)));
    let page = server().do_list_reminders(&q, &vec![stored(), broken], true);
    assert_eq!(page.count, 2);
    assert_eq!(page.next_offset, Some(4));
    assert_eq!(page.reminders[0].schedule, "one-shot at 2026-09-10 11:00 UTC");
    assert!(page.reminders[1].schedule.starts_with("<invalid schedule: "));
    assert_eq!(
        server()
            .do_list_reminders(&q, &vec![], false)
            .next_offset,
        None
    );
}

#[test]
fn cancelling_is_idempotent_but_needs_a_reminder() {
    let p = CancelReminderParams {
        id: "reminder:9".into(),
    };
    match server().do_cancel_reminder(&p, &None) {
        CancelDecision::Refuse(f) => assert_eq!(f.message(), "Reminder not found: reminder:9"),
        other => panic!("{other:?}"),
    }
    assert!(matches!(
        server().do_cancel_reminder(&p, &Some(stored())),
        CancelDecision::Cancel
    ));
    let mut gone = stored();
    gone.status = "cancelled".into();
    assert!(matches!(
        server().do_cancel_reminder(&p, &Some(gone)),
        CancelDecision::Done
    ));
}

#[test]
fn the_summary_drops_unreadable_rows_before_the_cap() {
    let mut broken = stored();
    broken.schedule_kind = "never".into();
    let rows = vec![broken, stored(), stored(), stored()];
    assert_eq!(due_reminders_summary(&rows, 2).len(), 2);
    assert_eq!(due_reminders_summary(&rows, 9).len(), 3);
    assert_eq!(due_sample_size(5), 15);
}

// --- memories ---

fn fact(id: &str, content: &str) -> Fact {
    Fact {
        id: Some(id.into()),
        content: content.into(),
        tags: vec![],
    }
}

fn ask(limit: Option<usize>) -> RetrieveMemoriesParams {
    RetrieveMemoriesParams {
        query: "q".into(),
        limit,
        session_id: None,
    }
}

fn three() -> (Vec<Fact>, Vec<i64>) {
    (
        vec![fact("fact:a", "low"), fact("fact:b", "high"), fact("fact:c", "edge")],
        vec![score(0.1), score(0.9), score(0.3)],
    )
}

#[test]
fn retrieve_memories_drops_results_below_floor() {
    let (facts, scores) = three();
    let r = server().do_retrieve_memories(&ask(None), &facts, &scores);
    let ids: Vec<&str> = r.results.iter().map(|m| m.id.as_str()).collect();
    assert_eq!(ids, vec!["fact:b", "fact:c"]);
}

#[test]
fn retrieve_memories_floor_is_inclusive_at_boundary() {
    let facts = vec![fact("fact:a", "just below"), fact("fact:b", "exactly")];
    let below = f32::from_bits(0.3f32.to_bits() - 1);
    let r = server().do_retrieve_memories(&ask(None), &facts, &vec![score(below), score(0.3)]);
    assert_eq!(r.results.len(), 1);
    assert_eq!(r.results[0].id, "fact:b");
}

#[test]
fn test_dry_and_wet_return_identical_results() {
    let (facts, scores) = three();
    let wet = server().do_retrieve_memories(&ask(Some(2)), &facts, &scores);
    let dry = server().do_retrieve_memories_dry(&ask(Some(2)), &facts, &scores);
    let places = |r: &[alexandria::memories::Retrieved]| -> Vec<usize> {
        r.iter().map(|m| m.fact).collect()
    };
    assert_eq!(places(&wet.results), places(&dry.results));
    assert_eq!(wet.activate, vec!["fact:b", "fact:c"]);
    assert!(dry.activate.is_empty());
    let all = server().do_retrieve_memories_unfiltered(&ask(None), &facts, &scores);
    assert_eq!(all.results.len(), 3);
}

#[test]
fn activation_starts_from_the_best_few() {
    let facts: Vec<Fact> = (0..6).map(|i| fact(&format!("fact:{i}"), "x")).collect();
    let scores: Vec<i64> = (0..6).map(|i| score(0.9 - i as f32 * 0.05)).collect();
    let r = server().do_retrieve_memories(&ask(None), &facts, &scores);
    assert_eq!(r.activate, vec!["fact:0", "fact:1", "fact:2"]);
    let one = server()
        .with_activation_top_n(1)
        .do_retrieve_memories(&ask(None), &facts, &scores);
    assert_eq!(one.activate, vec!["fact:0"]);
}

#[test]
fn updates_need_a_memory_and_embed_only_changes() {
    let p = |content: Option<&str>| UpdateMemoryParams {
        id: "fact:1".into(),
        content: content.map(String::from),
        tags: None,
    };
    let old = Some(Fact {
        id: Some("fact:1".into()),
        content: "old".into(),
        tags: vec!["t".into()],
    });
    let changed = server().do_update_memory(&p(Some("new")), &old).unwrap();
    assert_eq!(changed.embed.as_deref(), Some("new"));
    assert_eq!(changed.content.as_deref(), Some("new"));
    let kept = changed.snapshot.as_ref().unwrap();
    assert_eq!(kept.content, "old");
    assert_eq!(kept.tags, vec!["t"]);
    assert_eq!(kept.edge_type, "derived_from");
    let again = server().do_update_memory(&p(Some("old")), &old).unwrap();
    assert!(again.embed.is_none() && again.snapshot.is_none());
    assert_eq!(again.content.as_deref(), Some("old"));
    let none = server().do_update_memory(&p(None), &old).unwrap();
    assert!(none.embed.is_none() && none.snapshot.is_none() && none.content.is_none());
    let err = server().do_update_memory(&p(None), &None).unwrap_err();
    assert_eq!(err.message(), "Memory not found: fact:1");
    assert_eq!(
        update_embedding(0).unwrap_err().message(),
        "Embedding returned empty result"
    );
    assert_eq!(update_embedding(2).unwrap(), 0);
    assert!(update_outcome(&p(None), &changed, true).unwrap());
    assert!(!update_outcome(&p(None), &none, true).unwrap());
    assert_eq!(
        update_outcome(&p(None), &none, false).unwrap_err().message(),
        "Update failed for fact:1"
    );
}

fn document(mode: Option<&str>, strategy: Option<&str>) -> ImportDocumentParams {
    ImportDocumentParams {
        content: "# A\none\n\n# B\ntwo".into(),
        mode: mode.map(String::from),
        chunk_strategy: strategy.map(String::from),
        tags: Some(vec!["doc".into()]),
        session_id: None,
    }
}

#[test]
fn a_document_is_stored_whole_or_in_chunks() {
    let whole = plan_import(&document(Some("whole"), None), "b1").unwrap();
    assert_eq!(whole.chunks, vec!["# A\none\n\n# B\ntwo"]);
    assert_eq!(whole.tags, vec!["doc", "import_batch:b1"]);
    assert_eq!(whole.document, "# A\none\n\n# B\ntwo");
    assert_eq!(whole.edge_type, "extracted_from");
    assert_eq!((whole.confidence, whole.heat), (100, 200));
    let chunks = plan_import(&document(None, None), "b1").unwrap();
    assert_eq!(chunks.chunks, vec!["# A\none", "# B\ntwo"]);
    let paragraphs = plan_import(&document(None, Some("paragraph")), "b1").unwrap();
    assert_eq!(paragraphs.chunks.len(), 2);
    let fixed = plan_import(&document(None, Some("fixed_size")), "b1").unwrap();
    assert_eq!(fixed.chunks.len(), 1);
    assert_eq!(
        plan_import(&document(Some("half"), None), "b1")
            .unwrap_err()
            .message(),
        "Unknown import mode: half"
    );
    assert_eq!(
        plan_import(&document(None, Some("line")), "b1")
            .unwrap_err()
            .message(),
        "Unknown chunk strategy: line"
    );
}

#[test]
fn every_import_has_a_batch_of_its_own() {
    let a = server().do_import_document(&document(None, None)).unwrap();
    let b = server().do_import_document(&document(None, None)).unwrap();
    assert_eq!(a.batch_id.len(), 36);
    assert_ne!(a.batch_id, b.batch_id);
    assert_eq!(a.tags[1], format!("import_batch:{}", a.batch_id));
}

fn session() -> Session {
    Session {
        external_id: "s1".into(),
        agent_id: None,
        model: None,
        started_at: None,
        ended_at: None,
        summary: None,
        tags: vec![],
    }
}

#[test]
fn a_session_is_found_or_missed() {
    let p = GetSessionParams {
        session_id: "s1".into(),
    };
    let found = server()
        .do_get_session(&p, Some(session()), &vec![fact("fact:1", "x")])
        .unwrap();
    assert_eq!(found.memory_count, 1);
    assert_eq!(found.memories[0].id, "fact:1");
    assert!(server().do_get_session(&p, None, &vec![]).is_err());
    let f = FinalizeSessionParams {
        session_id: "s1".into(),
        summary: Some("done".into()),
        tags: None,
    };
    assert!(server().do_finalize_session(&f, Some(session())).is_ok());
    assert!(server().do_finalize_session(&f, None).is_err());
}

#[test]
fn a_memory_joins_the_closest_cluster_or_founds_one() {
    let p = StoreMemoryParams {
        content: "c".into(),
        tags: None,
        session_id: None,
        agent_id: None,
        model: None,
    };
    let close = vec![ClusterInfo {
        id: "cluster:a".into(),
        similarity: score(0.8),
        member_count: 1,
    }];
    let plan = server().do_store_memory(&p, &close);
    assert_eq!((plan.confidence, plan.heat, plan.provenance), (50, 100, "user"));
    match plan.placement {
        Placement::Join { id, centroid_of } => {
            assert_eq!(id, "cluster:a");
            assert_eq!(centroid_of, 0);
        }
        other => panic!("{other:?}"),
    }
    assert!(matches!(
        server().do_store_memory(&p, &vec![]).placement,
        Placement::Found
    ));
}

#[test]
fn instants_are_written_in_utc() {
    assert_eq!(rfc3339_utc(utc(2026, 9, 10, 11, 0)), "2026-09-10T11:00:00Z");
}

#[test]
fn the_first_known_agent_of_a_session_stays() {
    let who = |agent: Option<&str>, model: Option<&str>| Attribution {
        agent_id: agent.map(String::from),
        model: model.map(String::from),
    };
    let first = attribute(&who(None, None), &who(None, Some("m1")));
    assert_eq!((first.agent_id.as_deref(), first.model.as_deref()), (None, Some("m1")));
    let then = attribute(&first, &who(Some("pi"), Some("m2")));
    assert_eq!((then.agent_id.as_deref(), then.model.as_deref()), (Some("pi"), Some("m1")));

    let mut p = StoreMemoryParams {
        content: "c".into(),
        tags: None,
        session_id: None,
        agent_id: Some("pi".into()),
        model: None,
    };
    assert_eq!(server().do_store_memory(&p, &vec![]).attribution.agent_id, None);
    p.session_id = Some("s".into());
    assert_eq!(
        server().do_store_memory(&p, &vec![]).attribution.agent_id.as_deref(),
        Some("pi")
    );
}
