use alexandria::debug::html::{encode_query_value, format_dt, ABSENT};
use alexandria::debug::memories::{
    detail, dir_key, list, parse_dir, parse_sort, read_params, sort_key, sort_link, ClusterOfFact,
    EdgeRecord, FactRecord, FactSort, HeatRecord, ListParams, MemoriesTemplate,
    MemoryDetailTemplate, MemoryRow, SortDir, SortLinks,
};
use alexandria::debug::query::{note, run, Fragment, QueryForm, QueryTemplate, Run, ScoreBands};
use alexandria::debug::sessions::{
    detail as session_detail, list as session_list, read_params as read_session_params,
    session_rollup, sessions_url, AttachedFact, Page, SessionDetailTemplate, SessionRecord, SessionRow,
    SessionsTemplate,
};
use alexandria::time::Instant;

fn example_dt() -> Instant {
    Instant::new(1_783_252_211, 0).unwrap()
}

fn assert_no_seconds_timestamp(html: &str, rendered_by: &str) {
    for w in html.as_bytes().windows(8) {
        if w[2] == b':' && w[5] == b':' && w.iter().all(|b| b.is_ascii_digit() || *b == b':') {
            panic!("{rendered_by} rendered a seconds-precision timestamp; got: {html}");
        }
    }
}

/// The header row is the only `<tr>` whose first cell is a `<th>`.
fn header_row(text: &str) -> String {
    let start = text.find("<tr><th").unwrap();
    text[start..].split("</tr>").next().unwrap().to_string() + "</tr>"
}

fn links(active: &'static str, dir: &'static str) -> SortLinks {
    SortLinks {
        id: "H-id".into(),
        content: "H-content".into(),
        tags: "H-tags".into(),
        confidence: "H-confidence".into(),
        created: "H-created".into(),
        active,
        dir,
    }
}

fn memories_template(sorts: SortLinks) -> MemoriesTemplate {
    MemoriesTemplate {
        nav: "memories",
        search: String::new(),
        tag: String::new(),
        include_deleted: false,
        rows: vec![MemoryRow {
            id: "fact:abc".into(),
            preview: "a preview".into(),
            tags: vec!["t".into()],
            confidence: "0.50".into(),
            created: "2026-09-11 09:00 UTC".into(),
            deleted: false,
        }],
        prev_href: String::new(),
        next_href: String::new(),
        summary: "Showing 1\u{2013}1 of 1 memories".into(),
        sorts,
    }
}

#[test]
fn test_sort_wire_keys_round_trip_through_the_allowlist() {
    for sort in [
        FactSort::CreatedAt,
        FactSort::Confidence,
        FactSort::Content,
        FactSort::Id,
        FactSort::TagCount,
    ] {
        let key = sort_key(sort);
        assert_eq!(
            parse_sort(Some(&key.to_string())),
            sort,
            "{key:?} must parse back to {sort:?}"
        );
    }
    for dir in [SortDir::Asc, SortDir::Desc] {
        let key = dir_key(dir);
        assert_eq!(
            parse_dir(Some(&key.to_string())),
            dir,
            "{key:?} must parse back to {dir:?}"
        );
    }
    // And anything else is the default — the catch-all arm is a total function, not a filter.
    for junk in ["", " ", "created_at", "CREATED", "id ASC", "tags)", "~"] {
        assert_eq!(
            parse_sort(Some(&junk.to_string())),
            FactSort::CreatedAt,
            "{junk:?} must fall back"
        );
    }
    assert_eq!(parse_sort(None), FactSort::CreatedAt);
    assert_eq!(parse_dir(None), SortDir::Desc);
    assert_eq!(parse_dir(Some(&"asc; DROP".to_string())), SortDir::Desc);
}

#[test]
fn test_sort_link_resets_the_offset_and_toggles() {
    let link = sort_link(
        Some("hello world"),
        None,
        true,
        20,
        FactSort::Confidence,
        FactSort::Confidence,
        SortDir::Asc,
    );
    assert_eq!(
        link,
        "/debug/memories?limit=20&offset=0&search=hello%20world&include_deleted=true&sort=confidence",
        "the active column flips to descending and the offset resets"
    );
    let other = sort_link(
        None,
        Some("a&b"),
        false,
        20,
        FactSort::TagCount,
        FactSort::Id,
        SortDir::Desc,
    );
    assert_eq!(
        other, "/debug/memories?limit=20&offset=0&tag=a%26b&sort=tags",
        "an inactive column sorts descending; the default direction is not spelled out"
    );
}

#[test]
fn test_memories_pages_use_the_shared_timestamp_format_and_absent_marker() {
    let mut with_time = memories_template(links("created", "desc"));
    with_time.rows[0].created = format_dt(Some(example_dt()));
    let with_time = with_time.render();
    assert!(
        with_time.contains("<td>2026-07-05 11:50 UTC</td>"),
        "the shared minute form must appear verbatim in the list cell; got: {with_time}"
    );
    assert_no_seconds_timestamp(&with_time, "memories.html");

    let mut absent = memories_template(links("created", "desc"));
    absent.rows[0].created = format_dt(None);
    let absent = absent.render();
    assert!(
        absent.contains(&format!("<td>{}</td>", ABSENT)),
        "an absent created_at must render the shared marker, not an empty cell; got: {absent}"
    );
    assert!(
        !absent.contains("<td></td>"),
        "the list must not emit an empty cell; got: {absent}"
    );

    // The detail page: same two markers, same helper.
    let detail = MemoryDetailTemplate {
        nav: "memories",
        id: "fact:abc".into(),
        deleted: false,
        content: "a body".into(),
        tags: vec![],
        confidence: "0.50".into(),
        created_at: format_dt(Some(example_dt())),
        heat: None,
        cluster: None,
        edges: vec![],
        metadata: None,
    }
    .render();
    assert!(detail.contains("2026-07-05 11:50 UTC"), "got: {detail}");
    assert_no_seconds_timestamp(&detail, "memory_detail.html");
}

#[test]
fn test_memories_template_renders_one_active_header_and_tags_count() {
    let html = memories_template(links("tags", "asc")).render();
    let headers = header_row(&html);

    assert!(headers.contains("Tags (count)"), "got: {headers}");
    assert!(
        !headers.contains(r#"<th><a class="link" href="H-tags">Tags</a></th>"#),
        "the bare \"Tags\" label must not come back; got: {headers}"
    );
    assert_eq!(
        html.matches("aria-sort").count(),
        1,
        "exactly one column may claim a sort; got: {headers}"
    );
    assert!(
        headers.contains(
            r#"<th aria-sort="ascending"><a class="link" href="H-tags">Tags (count) ▲</a></th>"#
        ),
        "got: {headers}"
    );
    // Inactive headers: no attribute, no marker.
    for (href, label) in [
        ("H-id", "ID"),
        ("H-content", "Content"),
        ("H-confidence", "Confidence"),
        ("H-created", "Created"),
    ] {
        assert!(
            headers.contains(&format!(
                r#"<th><a class="link" href="{href}">{label}</a></th>"#
            )),
            "inactive header {label} must render plain; got: {headers}"
        );
    }
    // The hidden inputs echo the wire forms, so an htmx filter keeps the sort.
    assert!(
        html.contains(r#"<input type="hidden" name="sort" value="tags">"#),
        "got: {html}"
    );
    assert!(
        html.contains(r#"<input type="hidden" name="dir" value="asc">"#),
        "got: {html}"
    );
}

#[test]
fn test_memories_template_marks_only_the_default_column_active() {
    let html = memories_template(links("created", "desc")).render();
    let headers = header_row(&html);
    assert_eq!(html.matches("aria-sort").count(), 1, "got: {headers}");
    assert!(
        headers.contains(
            r#"<th aria-sort="descending"><a class="link" href="H-created">Created ▼</a></th>"#
        ),
        "got: {headers}"
    );
    // Nothing resembling an arrow on the inactive columns.
    assert_eq!(
        headers.matches('▲').count() + headers.matches('▼').count(),
        1,
        "got: {headers}"
    );
}

fn params() -> ListParams {
    ListParams {
        search: None,
        tag: None,
        include_deleted: None,
        limit: None,
        offset: None,
        sort: None,
        dir: None,
    }
}

fn fact(id: &str, content: &str, deleted: bool) -> FactRecord {
    FactRecord {
        id: Some(id.into()),
        content: content.into(),
        tags: vec!["<img src=x onerror=alert(2)>".into()],
        confidence: "0.50".into(),
        created_at: Some(example_dt()),
        deleted,
    }
}

#[test]
fn junk_parameters_take_their_defaults() {
    let mut p = params();
    p.search = Some("".into());
    p.limit = Some("abc".into());
    p.offset = Some("-3".into());
    p.sort = Some("created_at DESC; DELETE fact".into());
    p.include_deleted = Some("TRUE".into());
    let q = read_params(&p);
    assert_eq!(q.search, None);
    assert_eq!((q.limit, q.offset), (50, 0));
    assert_eq!((q.sort, q.dir), (FactSort::CreatedAt, SortDir::Desc));
    assert!(!q.include_deleted);
}

#[test]
fn test_memories_list_shows_total_count_and_pagination() {
    let mut p = params();
    p.limit = Some("2".into());
    let q = read_params(&p);
    let t = list(
        &q,
        &vec![fact("fact:1", "one", false), fact("fact:2", "two", true)],
        Some(3),
    );
    assert_eq!(t.summary, "Showing 1\u{2013}2 of 3 memories");
    assert_eq!(t.prev_href, "");
    assert_eq!(t.next_href, "/debug/memories?limit=2&offset=2");
    let html = t.render();
    assert!(html.contains(r#"<tr class="deleted">"#));
    assert!(html.contains(r#"<span class="badge">&#60;img src=x onerror=alert(2)&#62;</span>"#));
    assert!(!html.contains("<img src=x"));
}

#[test]
fn test_pagination_and_headers_carry_the_active_sort() {
    let mut p = params();
    p.limit = Some("2".into());
    p.offset = Some("0".into());
    p.sort = Some("confidence".into());
    p.dir = Some("asc".into());
    let q = read_params(&p);
    let page = list(
        &q,
        &vec![fact("fact:1", "one", false), fact("fact:2", "two", false)],
        Some(3),
    )
    .render();
    assert!(page.contains(
        r##"href="/debug/memories?limit=2&#38;offset=2&#38;sort=confidence&#38;dir=asc">Next →"##
    ));
    let headers = header_row(&page);
    assert!(
        headers.contains(r#"<th aria-sort="ascending"><a class="link" href="/debug/memories?limit=2&#38;offset=0&#38;sort=confidence">Confidence ▲</a></th>"#),
        "got: {headers}"
    );
    assert!(
        headers.contains(r#"<th><a class="link" href="/debug/memories?limit=2&#38;offset=0&#38;sort=content">Content</a></th>"#),
        "got: {headers}"
    );
    assert!(
        headers.contains(r#"<th><a class="link" href="/debug/memories?limit=2&#38;offset=0">Created</a></th>"#),
        "got: {headers}"
    );
}

#[test]
fn test_search_href_with_reserved_chars_round_trips() {
    let needle = "50% #hash plus+ sign";
    let mut p = params();
    p.limit = Some("1".into());
    p.search = Some(needle.into());
    let q = read_params(&p);
    let t = list(&q, &vec![fact("fact:1", "alpha 50% #hash plus+ sign", false)], Some(2));
    assert!(t.next_href.contains(&encode_query_value(needle)));
    assert!(!t.next_href.contains(' ') && t.next_href.contains("%2B"));
    let html = t.render();
    assert!(html.contains(r#"value="50% #hash plus+ sign""#));
}

#[test]
fn a_page_past_the_end_leads_back() {
    let mut p = params();
    p.limit = Some("20".into());
    p.offset = Some("10".into());
    let q = read_params(&p);
    let t = list(&q, &vec![], None);
    assert_eq!(t.summary, "Showing 0\u{2013}10 of 0 memories");
    assert_eq!(t.prev_href, "/debug/memories?limit=20&offset=0");
    assert_eq!(t.next_href, "");
}

#[test]
fn a_long_memory_is_cut_and_marked() {
    let q = read_params(&params());
    let t = list(&q, &vec![fact("fact:1", &"é".repeat(121), false)], Some(1));
    assert_eq!(t.rows[0].preview, format!("{}…", "é".repeat(120)));
}

#[test]
fn test_memory_detail_edges_are_links() {
    let page = detail(
        "fact:a",
        &fact("fact:a", "<script>alert(1)</script>", true),
        None,
        &Some(HeatRecord {
            heat: "1.500".into(),
            stability: "1.000".into(),
            access_count: 4,
            last_touched: None,
        }),
        &Some(ClusterOfFact {
            label: None,
            id: Some("cluster:x".into()),
        }),
        &vec![EdgeRecord {
            edge_type: "related".into(),
            in_node: Some("fact:a".into()),
            out_node: Some("fact:b".into()),
            strength: "0.70".into(),
        }],
    )
    .render();
    assert!(page.contains(r#"<pre class="content-block">&#60;script&#62;alert(1)&#60;/script&#62;</pre>"#));
    assert!(page.contains("Deleted"));
    assert!(page.contains("Back"));
    assert!(page.contains(r#"href="/debug/clusters/cluster%3Ax">unlabeled</a>"#));
    assert!(page.contains(r#"href="/debug/memories/fact%3Ab">fact:b</a>"#));
    assert!(page.contains("1.500") && page.contains(ABSENT));
    assert!(page.contains("Metadata") && page.contains("<p>None</p>"));
}

// --- sessions ---

fn sessions_template() -> SessionsTemplate {
    SessionsTemplate {
        nav: "sessions",
        rows: vec![
            SessionRow {
                external_id: "pi:sess-7".into(),
                agent: "agent-alpha".into(),
                model: "sonnet-4-5".into(),
                memory_count: 2,
                started: "2026-09-11 10:00 UTC".into(),
                last_activity: "2026-09-11 10:05 UTC".into(),
                finalized: true,
            },
            SessionRow {
                external_id: "sess-idle".into(),
                agent: ABSENT.into(),
                model: ABSENT.into(),
                memory_count: 0,
                started: "2026-09-11 09:00 UTC".into(),
                last_activity: "2026-09-11 09:01 UTC".into(),
                finalized: false,
            },
        ],
        prev_href: String::new(),
        next_href: "/debug/sessions?limit=2&offset=2".into(),
        summary: "Showing 1\u{2013}2 of 3 sessions".into(),
    }
}

fn detail_template(summary: Option<&str>) -> SessionDetailTemplate {
    SessionDetailTemplate {
        nav: "sessions",
        external_id: "pi:sess-7".into(),
        agent: ABSENT.into(),
        model: ABSENT.into(),
        started: "2026-09-11 10:00 UTC".into(),
        last_activity: ABSENT.into(),
        finalized: summary.is_some(),
        summary: summary.map(String::from),
        tags: vec![],
        memories: vec![],
    }
}

#[test]
fn test_sessions_pages_use_the_shared_timestamp_format_and_absent_marker() {
    let mut tpl = sessions_template();
    tpl.rows[0].started = format_dt(Some(example_dt()));
    tpl.rows[1].last_activity = format_dt(None);
    let html_list = tpl.render();
    assert!(
        html_list.contains("<td>2026-07-05 11:50 UTC</td>"),
        "the shared minute form must appear verbatim; got: {html_list}"
    );
    assert!(
        html_list.contains(&format!("<td>{}</td>", ABSENT)),
        "an absent last-activity must render the shared marker; got: {html_list}"
    );
    assert!(
        !html_list.contains("<td></td>"),
        "the list must not emit an empty cell; got: {html_list}"
    );
    assert_no_seconds_timestamp(&html_list, "sessions.html");

    let mut detail = detail_template(None);
    detail.started = format_dt(Some(example_dt()));
    detail.last_activity = format_dt(None);
    let html_detail = detail.render();
    assert!(
        html_detail.contains("2026-07-05 11:50 UTC"),
        "got: {html_detail}"
    );
    assert!(
        html_detail.contains(ABSENT),
        "the detail page must use the same marker for a session with no recorded activity; got: {html_detail}"
    );
    assert_no_seconds_timestamp(&html_detail, "session_detail.html");
}

#[test]
fn test_sessions_template_renders_badge_branch_and_nav_and_urlencodes_ids() {
    let html = sessions_template().render();

    assert!(
        html.contains(r#"class="active">Sessions"#),
        "layout must highlight the Sessions nav entry; got: {html}"
    );
    assert!(
        html.contains(r#"<span class="badge">finalized</span>"#),
        "the finalized branch must render; got: {html}"
    );
    assert!(
        html.contains(r#"<span class="badge">active</span>"#),
        "the active branch must render; got: {html}"
    );
    assert!(
        html.contains(r#"href="/debug/sessions/pi%3Asess-7">pi:sess-7</a>"#),
        "external_id must be urlencoded in the href and verbatim as link text; got: {html}"
    );
    assert!(
        html.contains(r#"href="/debug/sessions?limit=2&#38;offset=2">Next →"#),
        "pager must carry the full offset href; got: {html}"
    );
    assert!(
        html.contains("Showing 1\u{2013}2 of 3 sessions"),
        "got: {html}"
    );
    assert!(
        html.contains(&format!("<td>{}</td><td>{}</td>", ABSENT, ABSENT)),
        "got: {html}"
    );
}

#[test]
fn test_sessions_template_falls_back_to_summary_line_without_links() {
    let mut tpl = sessions_template();
    tpl.prev_href = String::new();
    tpl.next_href = String::new();
    let html = tpl.render();
    assert!(
        !html.contains("Next") && !html.contains("Prev"),
        "the macro must contribute no links; got: {html}"
    );
    assert!(
        html.contains("Showing 1\u{2013}2 of 3 sessions"),
        "the page owns the single-page fallback wording; got: {html}"
    );
}

#[test]
fn test_session_detail_template_renders_not_finalized_state() {
    let html = detail_template(None).render();
    assert!(
        html.contains("Not finalized"),
        "the not-finalized state must be explicit; got: {html}"
    );
    assert!(
        !html.contains(r#"<pre class="content-block">"#),
        "an absent summary must not render an empty content block; got: {html}"
    );
    assert!(
        html.contains(r#"<span class="badge">active</span>"#),
        "got: {html}"
    );
    assert!(
        !html.contains(r#"<span class="badge">finalized</span>"#),
        "got: {html}"
    );
    assert!(
        html.contains("No memories"),
        "an empty memory list must be explicit; got: {html}"
    );
    assert!(html.contains(r#"class="active">Sessions"#), "got: {html}");
    // The last-activity caveat belongs on the detail page too, since it shows the field.
    assert!(html.contains("Last activity"), "got: {html}");
}

#[test]
fn a_session_without_memories_keeps_its_table() {
    let html = detail_template(None).render();
    assert!(
        html.contains(
            "<table><tr><th>ID</th><th>Content</th><th>Created</th></tr>\
             <tr><td colspan=\"3\" class=\"empty\">No memories</td></tr></table>"
        ),
        "got: {html}"
    );
}

#[test]
fn test_session_detail_template_renders_summary_when_finalized() {
    let html = detail_template(Some("a summary with <b>bold</b> prose")).render();
    assert!(
        html.contains(r#"<pre class="content-block">a summary with &#60;b&#62;bold&#60;/b&#62; prose</pre>"#),
        "summary must render escaped inside the content block; got: {html}"
    );
    assert!(!html.contains("Not finalized"), "got: {html}");
    assert!(
        html.contains(r#"<span class="badge">finalized</span>"#),
        "got: {html}"
    );
}

fn session(id: &str, summary: Option<&str>) -> SessionRecord {
    SessionRecord {
        external_id: id.into(),
        agent_id: None,
        model: Some("m".into()),
        memory_count: 2,
        started_at: Some(example_dt()),
        ended_at: Some(example_dt()),
        summary: summary.map(String::from),
        tags: vec!["t".into()],
    }
}

#[test]
fn test_sessions_list_marks_finalized_only_from_summary() {
    let t = session_list(
        Page { limit: 2, offset: 0 },
        &vec![session("a", None), session("b", Some("done"))],
        Some(3),
    );
    assert!(!t.rows[0].finalized, "a last activity alone finalizes nothing");
    assert!(t.rows[1].finalized);
    assert_eq!(t.next_href, sessions_url(2, 2));
    assert_eq!(t.prev_href, "");
}

#[test]
fn test_sessions_list_tolerates_junk_pagination_params() {
    let p = read_session_params(&Some("abc".into()), &Some("1.5".into()));
    assert_eq!((p.limit, p.offset), (50, 0));
    let p = read_session_params(&Some("7".into()), &Some("14".into()));
    assert_eq!((p.limit, p.offset), (7, 14));
}

#[test]
fn test_session_detail_memory_rows_link_to_memory_detail() {
    let t = session_detail(
        "pi:sess-7",
        &session("pi:sess-7", None),
        &vec![AttachedFact {
            id: Some("fact:1".into()),
            content: "y".repeat(130),
            created_at: None,
        }],
    );
    assert_eq!(t.memories[0].preview, "y".repeat(120));
    let html = t.render();
    assert!(html.contains(r#"href="/debug/memories/fact%3A1">fact:1</a>"#));
    assert!(html.contains("← Back to sessions"));
}

#[test]
fn test_sessions_list_and_detail_are_read_only() {
    for page in [sessions_template().render(), detail_template(None).render()] {
        assert!(!page.contains("<form"));
        assert!(!page.contains("hx-post"));
        assert!(!page.contains("<input"));
    }
}

// --- the query tester ---

#[test]
fn test_query_form_template_names_every_query_form_field() {
    let html = QueryTemplate { nav: "query" }.render();

    assert!(
        html.contains(r#"class="active">Query Tester"#),
        "layout must highlight the Query Tester nav entry; got: {html}"
    );
    assert!(
        html.contains(r##"hx-post="/debug/query/run" hx-target="#query-results""##),
        "the swap targets are part of the contract with `run`; got: {html}"
    );
    for name in ["mode", "query", "limit", "session_id"] {
        assert!(
            html.contains(&format!(r#"name="{name}""#)),
            "`name=\"{name}\"` missing from the form; got: {html}"
        );
    }
    assert!(
        html.contains("Limit (retrieve only)") && html.contains("Session ID (retrieve only)"),
        "fields recall ignores must be labelled retrieve-only; got: {html}"
    );
    assert!(
        html.contains(r##"name="session_id" placeholder="external session id,"##),
        "the session id input must be free text hinting at the expected value; got: {html}"
    );
    assert!(
        !html.contains(r#"session_id" value="#),
        "the form must not pretend to persist submissions; got: {html}"
    );
}

fn form(mode: &str, session_id: Option<&str>) -> QueryForm {
    QueryForm {
        mode: mode.into(),
        query: "project decision".into(),
        limit: Some(10),
        session_id: session_id.map(String::from),
        dry_run: None,
    }
}

#[test]
fn test_query_tester_empty_session_id_is_unscoped() {
    for blank in [None, Some(""), Some("  ")] {
        match run(&form("retrieve", blank)) {
            Run::Retrieve { params: p, dry_run } => {
                assert!(!dry_run);
                assert_eq!(p.session_id, None);
                assert_eq!(p.limit, Some(10));
                assert_eq!(p.query, "project decision");
            }
            other => panic!("{other:?}"),
        }
    }
    match run(&form("retrieve", Some("sess-alpha"))) {
        Run::Retrieve { params, .. } => {
            assert_eq!(params.session_id.as_deref(), Some("sess-alpha"))
        }
        other => panic!("{other:?}"),
    }
}

#[test]
fn a_recall_ignores_limit_and_session_and_an_unknown_mode_runs_nothing() {
    match run(&form("recall", Some("sess-alpha"))) {
        Run::Recall(p) => assert_eq!(p.scope_handle, None),
        other => panic!("{other:?}"),
    }
    match run(&form("<b>", None)) {
        Run::Answer(f) => assert_eq!(
            f.render(),
            r#"<p class="error">Unknown mode: &#60;b&#62;</p>"#
        ),
        other => panic!("{other:?}"),
    }
}

#[test]
fn a_retrieval_is_shown_as_a_table() {
    let html = Fragment::retrieve(
        r#"{"results":[{"id":"fact:1","content":"a <b>","similarity":0.5},{"content":7}]}"#,
    )
    .render();
    assert!(html.contains(r#"href="/debug/memories/fact%3A1">fact:1</a>"#));
    assert!(html.contains("<td>a &#60;b&#62;</td><td>0.5000</td>"));
    assert!(html.contains("<td></td><td>0.0000</td>"), "a malformed entry shows blank cells");
    assert!(!html.contains("<h3>"));
    for empty in [r#"{"results":[]}"#, r#"{"results":{}}"#, "{}", "[]"] {
        assert_eq!(Fragment::retrieve(empty).render(), "<p>No results.</p>");
    }
}

#[test]
fn a_recall_is_shown_by_its_mode() {
    let focused = Fragment::recall(
        r#"{"mode":"focused","memories":[{"id":"fact:1","content":"x","similarity":0.25}]}"#,
    )
    .render();
    assert!(focused.starts_with("<h3>Focused recall</h3>"));
    assert!(focused.contains("<td>0.2500</td>"));
    assert_eq!(
        Fragment::recall(r#"{"mode":"focused","memories":[]}"#).render(),
        "<p>No memories in this scope.</p>"
    );
    let broad = Fragment::recall(
        r#"{"mode":"broad","clusters":[{"cluster_id":"cluster:a","similarity":0.9,"representative_memories":[{"content":"one"},{"content":"two"}]}]}"#,
    )
    .render();
    assert!(broad.starts_with("<h3>Broad recall</h3>"));
    assert!(broad.contains("cluster:a</a> (0.9000)"));
    assert!(broad.contains("<ul><li>one</li><li>two</li></ul>"));
    assert_eq!(Fragment::recall("{}").render(), "<p>No clusters found.</p>");
    assert!(Fragment::recall("not json")
        .render()
        .contains("Failed to parse recall response: "));
}

fn bands() -> ScoreBands {
    ScoreBands {
        join: "0.75".into(),
        cohesion: "0.6".into(),
        floor: "0.3".into(),
    }
}

#[test]
fn a_run_carries_a_legend_of_score_bands() {
    let legend = bands().render();
    assert_eq!(
        legend,
        "<p>Reading a score:</p><ul class=\"legend\">\
         <li>0.75 and above: close enough to join a cluster</li>\
         <li>0.6 and above: as close as a cluster that holds together</li>\
         <li>0.3 and above: kept by the floor</li>\
         <li>below 0.3: dropped by the floor</li></ul>"
    );
    let run = note(&bands(), 0, r#"{"results":[]}"#, true, &vec![]).render();
    assert!(run.ends_with(&legend), "got: {run}");
}

#[test]
fn a_dry_run_is_asked_for_and_reported() {
    let mut ticked = form("retrieve", None);
    ticked.dry_run = Some("true".into());
    assert!(matches!(run(&ticked), Run::Retrieve { dry_run: true, .. }));
    let unfiltered = r#"{"results":[{"id":"fact:1","similarity":0.9},{"id":"fact:2","similarity":0.1}]}"#;
    let bands = bands();
    let dry = note(&bands, 1, unfiltered, true, &vec![]).render();
    assert!(dry.contains("min_similarity = 0.3"));
    assert!(dry.contains("fact:2</a> (0.1000)") && !dry.contains("fact:1"));
    assert!(dry.contains("did not fire"));
    let wet = note(&bands, 2, unfiltered, false, &vec!["fact:1".to_string()]).render();
    assert!(!wet.contains("Dropped"));
    assert!(wet.contains(r#"fired on the top 1: <span class="badge">fact:1</span>"#));
}

#[test]
fn sessions_are_rolled_up_by_their_summary() {
    let r = session_rollup(&vec![session("a", None), session("b", Some("done")), session("c", None)]);
    assert_eq!((r.finalized, r.idle), (1, 2));
}
