use alexandria::debug::assets::{asset, Asset, HTMX_URL, VIS_NETWORK_URL};
use alexandria::debug::clusters::{
    cluster_health, cohesion_of, detail as cluster_detail, list as cluster_list,
    ClusterDetailTemplate, ClusterHealth, ClusterRecord, Cohesion, Member,
};
use alexandria::debug::dashboard::{
    context_rows, dashboard, schema_note, without_stats, DebugContext, ServerValues, Stats,
    UNAVAILABLE,
};
use alexandria::debug::graph::{
    bound_nodes, collect_nodes, draw_edges, draw_nodes, facts_among, label_snippet, node_table_of,
    node_tooltip, resolve_hops, EdgeRow, GraphTemplate, Neighbor, DEFAULT_HOPS, MAX_HOPS, MAX_NODES,
};
use alexandria::debug::html::{
    encode_query_value, error_page, escaped, format_dt, not_found, pager_html, unavailable,
    url_encoded, ErrorTemplate, ABSENT, UNAVAILABLE_STATUS,
};
use alexandria::debug::maintenance::{
    list as maintenance_list, page_offset, MaintenanceLog, MaintenanceTemplate, Pagination,
};
use alexandria::debug::rollups::{
    heat_distribution, top_tags, HeatBands, TagCount, TOP_TAGS,
};
use alexandria::debug::sessions::SessionRollup;
use alexandria::debug::styles::{edge_styles, node_styles, widths};
use alexandria::ranking::score_of_bits;
use alexandria::time::Instant;

fn score(x: f32) -> i64 {
    score_of_bits(x.to_bits())
}

fn example_dt() -> Instant {
    Instant::new(1_783_252_211, 0).unwrap()
}

fn render_pager(prev_href: &str, next_href: &str, summary: &str) -> String {
    pager_html(prev_href, next_href, summary)
}

// --- timestamps and texts ---

#[test]
fn test_format_dt_renders_the_shared_minute_form_and_the_absent_marker() {
    assert_eq!(format_dt(Some(example_dt())), "2026-07-05 11:50 UTC");
    assert_eq!(format_dt(None), ABSENT);
    assert_eq!(ABSENT, "\u{2014}", "one em-dash, not a hyphen");
}

#[test]
fn escaping_and_encoding_differ_by_context() {
    assert_eq!(escaped("a<b>&\"'c"), "a&#60;b&#62;&#38;&#34;&#39;c");
    assert_eq!(url_encoded("fact:a/b"), "fact%3Aa/b");
    assert_eq!(encode_query_value("fact:a/b"), "fact%3Aa%2Fb");
}

#[test]
fn test_encode_query_value_percent_encodes_every_reserved_byte() {
    for (input, want) in [
        ("%", "%25"),
        ("#", "%23"),
        ("+", "%2B"),
        ("&", "%26"),
        ("=", "%3D"),
        (" ", "%20"),
        (":", "%3A"),
        ("/", "%2F"),
        ("?", "%3F"),
        ("é", "%C3%A9"),
        ("<>", "%3C%3E"),
        ("'", "%27"),
        ("a b%c#d+e&f=g", "a%20b%25c%23d%2Be%26f%3Dg"),
        // The unreserved set passes through untouched.
        ("AZaz09-_.~", "AZaz09-_.~"),
    ] {
        assert_eq!(encode_query_value(input), want, "encoding {input:?}");
    }
}

// --- layout, errors and the pager ---

#[test]
fn test_layout_embeds_vendored_htmx_not_a_cdn() {
    let html = ErrorTemplate {
        nav: "dashboard",
        message: "x".into(),
    }
    .render();
    assert!(
        html.contains(HTMX_URL),
        "layout must reference the vendored asset constant"
    );
    assert!(!html.contains("unpkg.com"), "no CDN references may remain");
}

#[test]
fn test_error_template_escapes_message() {
    let html = ErrorTemplate {
        nav: "dashboard",
        message: "<script>alert(1)</script>".into(),
    }
    .render();
    assert!(
        !html.contains("<script>alert(1)</script>"),
        "must be escaped"
    );
    assert!(
        html.contains(r#"<p class="error">&#60;script&#62;alert(1)&#60;/script&#62;</p>"#),
        "got: {html}"
    );
}

#[test]
fn test_layout_marks_active_nav() {
    let html = ErrorTemplate {
        nav: "clusters",
        message: "x".into(),
    }
    .render();
    assert!(
        html.contains(r#"class="active">Clusters"#),
        "active nav link not marked"
    );
    // and a non-active one must not be marked
    assert!(!html.contains(r#"class="active">Memories"#));
}

#[test]
fn test_pager_macro_renders_nothing_without_links() {
    let html = render_pager("", "", "7 entries");
    assert!(!html.contains("pagination"), "got: {html}");
    assert!(
        !html.contains("7 entries"),
        "summary must not render without a row; got: {html}"
    );
}

#[test]
fn test_pager_macro_renders_both_links_when_both_present() {
    let html = render_pager(
        "/debug/maintenance?page=1",
        "/debug/maintenance?page=3",
        "Page 2 of 3 (42 entries)",
    );
    assert!(
        html.contains(r#"href="/debug/maintenance?page=1""#),
        "got: {html}"
    );
    assert!(html.contains("← Prev"), "got: {html}");
    assert!(
        html.contains(r#"href="/debug/maintenance?page=3""#),
        "got: {html}"
    );
    assert!(html.contains("Next →"), "got: {html}");
    assert!(html.contains("Page 2 of 3 (42 entries)"), "got: {html}");
}

#[test]
fn test_pager_macro_omits_absent_side() {
    let first = render_pager("", "/debug/maintenance?page=2", "Page 1 of 3");
    assert!(!first.contains("Prev"), "got: {first}");
    assert!(
        first.contains(r#"href="/debug/maintenance?page=2""#),
        "got: {first}"
    );

    let last = render_pager("/debug/maintenance?page=2", "", "Page 3 of 3");
    assert!(!last.contains("Next"), "got: {last}");
    assert!(
        last.contains(r#"href="/debug/maintenance?page=2""#),
        "got: {last}"
    );
}

#[test]
fn test_pager_macro_escapes_ampersands_in_href() {
    let html = render_pager(
        "/debug/memories?offset=0&limit=20&search=foo",
        "",
        "Showing 21-40 of 42 memories",
    );
    assert!(
        html.contains(r#"href="/debug/memories?offset=0&#38;limit=20&#38;search=foo""#),
        "got: {html}"
    );
}

#[test]
fn test_pager_macro_keeps_prev_summary_next_as_siblings() {
    let html = render_pager(
        "/debug/maintenance?page=1",
        "/debug/maintenance?page=3",
        "Page 2 of 3",
    );
    assert!(
        html.contains(r#"<div class="pagination"><a class="link""#),
        "prev link must be the div's first child, not nested in a wrapper; got: {html}"
    );
    assert!(
        html.contains("Next →</a></div>"),
        "next link must be the div's last child, not nested in a wrapper; got: {html}"
    );
}

#[test]
fn faults_answer_with_their_status() {
    assert_eq!(error_page("memories", "boom").status, 200);
    let gone = not_found("memories", "Memory not found.");
    assert_eq!(gone.status, 404);
    assert!(gone.body.contains("Memory not found."));
    let broken = unavailable("memories", "memory", "no table");
    assert_eq!(broken.status, 500);
    assert_eq!(broken.status, UNAVAILABLE_STATUS);
    assert!(broken
        .body
        .contains("storage error while loading memory: no table"));
}

// --- assets ---

#[test]
fn test_unknown_asset_is_404() {
    assert_eq!(asset("nope.js"), None);
}

#[test]
fn test_traversal_attempt_is_404_not_a_file() {
    for name in ["../../../Cargo.toml", "SHA256SUMS", "README.md"] {
        assert_eq!(asset(name), None, "{name} must not resolve");
    }
}

#[test]
fn the_vendored_scripts_are_served_under_their_urls() {
    assert_eq!(HTMX_URL, "/debug/assets/htmx-2.0.10.min.js");
    assert_eq!(asset("htmx-2.0.10.min.js"), Some(Asset::Htmx));
    assert_eq!(VIS_NETWORK_URL, "/debug/assets/vis-network-10.1.2.min.js");
    assert_eq!(asset("vis-network-10.1.2.min.js"), Some(Asset::VisNetwork));
}

// --- maintenance ---

#[test]
fn test_maintenance_template_renders_pager_with_correct_sides() {
    let html = MaintenanceTemplate {
        nav: "maintenance",
        logs: vec![],
        prev_href: "/debug/maintenance?page=1".to_string(),
        next_href: "/debug/maintenance?page=3".to_string(),
        summary: "Page 2 of 3 (101 entries)".to_string(),
        total_pages: 3,
        total: 101,
    }
    .render();
    assert!(
        html.contains(r#"href="/debug/maintenance?page=1">← Prev"#),
        "prev must carry the lower page number; got: {html}"
    );
    assert!(
        html.contains(r#"href="/debug/maintenance?page=3">Next →"#),
        "next must carry the higher page number; got: {html}"
    );
    assert!(html.contains("Page 2 of 3 (101 entries)"), "got: {html}");
    assert!(
        !html.contains("<p>101 entries</p>"),
        "multi-page render must not also emit the single-page fallback; got: {html}"
    );
}

fn merge_log() -> MaintenanceLog {
    MaintenanceLog {
        action: "merge".into(),
        source_id: "cluster:b".into(),
        target_ids: vec!["cluster:a".into()],
        members_moved: 3,
        created_at: Some(example_dt()),
    }
}

#[test]
fn test_maintenance_log_shows_merge() {
    let text = maintenance_list(&Pagination { page: None }, &vec![merge_log()], 1).render();
    assert!(text.contains("Maintenance Log"));
    assert!(text.contains("merge"));
    assert!(text.contains("1 entries"));
    assert!(text.contains("<td>2026-07-05 11:50 UTC</td>"));
    assert!(text.contains(r#"href="/debug/clusters/cluster%3Aa">cluster:a</a>"#));
}

#[test]
fn pages_of_the_log_are_counted_from_one() {
    let page = |n| Pagination { page: n };
    assert_eq!(page_offset(&page(None)), 0);
    assert_eq!(page_offset(&page(Some(0))), 0);
    assert_eq!(page_offset(&page(Some(3))), 100);
    let t = maintenance_list(&page(Some(2)), &vec![], 101);
    assert_eq!(t.total_pages, 3);
    assert_eq!(t.prev_href, "/debug/maintenance?page=1");
    assert_eq!(t.next_href, "/debug/maintenance?page=3");
    assert_eq!(t.summary, "Page 2 of 3 (101 entries)");
    let last = maintenance_list(&page(Some(3)), &vec![], 101);
    assert_eq!(last.next_href, "");
}

// --- clusters ---

#[test]
fn test_cluster_detail_template_empty_state_keeps_the_header_and_marks_the_gap() {
    let html = ClusterDetailTemplate {
        nav: "clusters",
        id: "cluster:abc".into(),
        cohesion: "too few members to judge".into(),
        members: vec![],
        member_count: 0,
    }
    .render();
    assert!(
        html.contains("<tr><th>ID</th><th>Content</th></tr>"),
        "the header row must survive a memberless cluster; got: {html}"
    );
    assert!(
        html.contains("<td colspan=\"2\" class=\"empty\">No members in this cluster.</td>"),
        "the shared empty-state row must stand in for the missing rows; got: {html}"
    );
}

#[test]
fn cohesion_is_judged_like_maintenance_does() {
    assert_eq!(cohesion_of(4, Some(score(0.59)), score(0.6)), Cohesion::NeedsSplit);
    assert_eq!(cohesion_of(4, Some(score(0.6)), score(0.6)), Cohesion::Healthy);
    assert_eq!(cohesion_of(3, Some(score(0.1)), score(0.6)), Cohesion::TooSmall);
    assert_eq!(cohesion_of(9, None, score(0.6)), Cohesion::NoCentroid);
    assert_eq!(
        Cohesion::NeedsSplit.label(),
        "Needs split (below cohesion floor)"
    );
    assert_eq!(Cohesion::TooSmall.label(), "N/A (fewer than 4 members)");
}

#[test]
fn clusters_are_listed_and_shown() {
    let records = vec![
        ClusterRecord {
            id: Some("cluster:a".into()),
            label: None,
            members: 2,
            depth: 0,
            average: score(0.9),
        },
        ClusterRecord {
            id: Some("cluster:b".into()),
            label: Some("rust".into()),
            members: 5,
            depth: 1,
            average: score(0.5),
        },
    ];
    let text = cluster_list(&records, score(0.6)).render();
    assert_eq!(
        cluster_health(&records, score(0.6)),
        ClusterHealth {
            healthy: 0,
            needs_split: 1,
            too_small: 1
        }
    );
    assert!(text.contains("<td>(unlabeled)</td><td>2</td><td>0</td><td>N/A (fewer than 4 members)</td>"));
    assert!(text.contains("<td>rust</td><td>5</td><td>1</td><td>Needs split (below cohesion floor)</td>"));
    assert!(text.contains("2 clusters"));

    let long = "x".repeat(200);
    let page = cluster_detail(
        "cluster:a",
        None,
        &vec![Member {
            id: Some("fact:1".into()),
            content: long,
        }],
        score(0.6),
    );
    assert_eq!(page.members[0].preview, "x".repeat(120));
    assert_eq!(page.cohesion, "N/A (no cluster record)");
    assert_eq!(page.member_count, 1);
}

// --- dashboard ---

fn server_values() -> ServerValues {
    ServerValues {
        retrieve_min_similarity: "0.42".into(),
        activation_top_n: 3,
        propagation_factor: "0.3".into(),
        max_hops: 2,
        cluster_join_threshold: "0.75".into(),
        cohesion_floor: "0.6".into(),
        heat_spacing_halflife: "86400".into(),
        model_id: "stub".into(),
        dimensions: 2,
    }
}

fn stats() -> Stats {
    Stats {
        fact_count: 7,
        deleted_fact_count: 1,
        cluster_count: 3,
        edge_count: 4,
        raw_count: 0,
        session_count: 2,
        clusters: ClusterHealth {
            healthy: 1,
            needs_split: 1,
            too_small: 1,
        },
        sessions: SessionRollup {
            finalized: 1,
            idle: 1,
        },
        top_tags: vec![
            TagCount {
                tag: "rust & co".to_string(),
                uses: 5,
            },
            TagCount {
                tag: "cooking".to_string(),
                uses: 2,
            },
        ],
        heat: HeatBands {
            cold: 3,
            cool: 2,
            warm: 1,
            hot: 1,
        },
    }
}

fn tagged(tags: &[&str]) -> Vec<String> {
    tags.iter().map(|t| t.to_string()).collect()
}

fn shown(tags: &[&str]) -> Vec<(String, usize)> {
    top_tags(&tagged(tags)).into_iter().map(|t| (t.tag, t.uses)).collect()
}

#[test]
fn the_most_used_tags_come_first() {
    assert_eq!(
        shown(&["a", "b", "c", "b", "c", "d", "b"]),
        vec![
            ("b".to_string(), 3),
            ("c".to_string(), 2),
            ("a".to_string(), 1),
            ("d".to_string(), 1),
        ]
    );
    assert!(shown(&[]).is_empty());
    let many: Vec<String> = (0..TOP_TAGS + 3).map(|i| format!("t{i}")).collect();
    let mut names: Vec<&str> = many.iter().map(String::as_str).collect();
    // The last one is used twice, so it does not fall off the end.
    names.push("t12");
    let top = shown(&names);
    assert_eq!(top.len(), TOP_TAGS);
    assert_eq!(top[0], ("t12".to_string(), 2));
    assert_eq!(top[1], ("t0".to_string(), 1));
    assert_eq!(top[9], ("t8".to_string(), 1));
}

#[test]
fn every_heat_falls_in_one_band() {
    let heats = [0.0, 0.2499, 0.25, 0.49, 0.5, 0.75, 0.99, 1.0, 7.5, -1.0, f32::NAN];
    let scores: Vec<i64> = heats.iter().map(|h| score(*h)).collect();
    assert_eq!(
        heat_distribution(&scores),
        HeatBands {
            cold: 4,
            cool: 2,
            warm: 3,
            hot: 2,
        }
    );
}

#[test]
fn the_dashboard_rolls_up_tags_and_heat() {
    let html = dashboard(&stats(), &server_values(), &None, &Ok(None), "12").render();
    assert!(
        html.contains(
            "<h3>Top tags</h3><table><tr><th>Tag</th><th>Uses</th></tr>\
             <tr><td>rust &#38; co</td><td>5</td></tr><tr><td>cooking</td><td>2</td></tr></table>"
        ),
        "got: {html}"
    );
    assert!(html.contains("<h3>Heat distribution</h3><table>"), "got: {html}");
    assert_eq!(config_value(&html, "Below 0.25"), "3");
    assert_eq!(config_value(&html, "0.25 to below 0.5"), "2");
    assert_eq!(config_value(&html, "0.5 to below 1"), "1");
    assert_eq!(config_value(&html, "1 and above"), "1");
    let mut bare = stats();
    bare.top_tags = vec![];
    let html = dashboard(&bare, &server_values(), &None, &Ok(None), "12").render();
    assert!(
        html.contains(r#"<tr><td colspan="2" class="empty">No tags.</td></tr>"#),
        "got: {html}"
    );
}

fn context() -> DebugContext {
    DebugContext {
        embedding_model: "org/configured-model-v9".to_string(),
        embedding_device: "cuda-device-7".to_string(),
        transport: "http-transport-x".to_string(),
        bind_host: "bind-host-9".to_string(),
        bind_port: 45678,
        data_dir: "/tmp/data-dir-9".to_string(),
        cluster_merge_threshold: "0.875".to_string(),
        maintenance_interval_secs: 1234,
        allowed_hosts: vec![],
    }
}

fn config_value(html: &str, label: &str) -> String {
    let open = format!("<tr><th>{label}</th><td>");
    let start = html.find(&open).unwrap();
    let rest = &html[start + open.len()..];
    rest[..rest.find("</td>").unwrap()].to_string()
}

#[test]
fn test_dashboard_config_panel_unavailable_without_context() {
    let html = dashboard(&stats(), &server_values(), &None, &Ok(None), "12").render();
    assert!(
        html.contains(UNAVAILABLE),
        "no unavailable wording rendered"
    );
    for label in [
        "server.transport",
        "server.host",
        "server.port",
        "database.data_dir",
        "cluster.merge_threshold",
        "cluster.maintenance_interval_secs",
        "embedding.model (config file)",
        "embedding.device (config file)",
    ] {
        let value = config_value(&html, label);
        assert_eq!(
            value, UNAVAILABLE,
            "{label} must not show a value without a context"
        );
        assert!(
            !value.chars().any(|c| c.is_ascii_digit()),
            "{label} rendered a digit ({value}) that no one supplied"
        );
    }
    assert_eq!(config_value(&html, "cluster.cohesion_floor"), "0.6");
    assert_eq!(config_value(&html, "activation.top_n"), "3");
    assert_eq!(config_value(&html, "retrieve.min_similarity"), "0.42");
    assert_eq!(context_rows(&None).len(), 8);
}

#[test]
fn test_dashboard_with_context_shows_bind_and_transport() {
    let html = dashboard(
        &stats(),
        &server_values(),
        &Some(context()),
        &Ok(Some("12".to_string())),
        "12",
    )
    .render();
    assert_eq!(config_value(&html, "server.transport"), "http-transport-x");
    assert_eq!(config_value(&html, "server.host"), "bind-host-9");
    assert_eq!(config_value(&html, "server.port"), "45678");
    assert_eq!(config_value(&html, "database.data_dir"), "/tmp/data-dir-9");
    assert_eq!(config_value(&html, "cluster.merge_threshold"), "0.875");
    assert_eq!(
        config_value(&html, "cluster.maintenance_interval_secs"),
        "1234"
    );
    assert_eq!(
        config_value(&html, "embedding.model (config file)"),
        "org/configured-model-v9"
    );
    assert_eq!(
        config_value(&html, "embedding.device (config file)"),
        "cuda-device-7"
    );
    assert_eq!(config_value(&html, "embedding.model (loaded)"), "stub");
    assert_eq!(config_value(&html, "embedding.dimensions (loaded)"), "2");
    assert!(
        !html.contains(UNAVAILABLE),
        "a row leaked unavailability: {html}"
    );
}

#[test]
fn test_dashboard_shows_schema_versions() {
    let applied = Ok(Some("12".to_string()));
    let html = dashboard(&stats(), &server_values(), &None, &applied, "12").render();
    assert_eq!(config_value(&html, "schema.version (compiled-in head)"), "12");
    assert_eq!(config_value(&html, "schema.version (applied)"), "12");
    assert!(!html.contains("SCHEMA DRIFT"));
    assert_eq!(schema_note(&applied, "12"), "");

    let drifting = dashboard(
        &stats(),
        &server_values(),
        &None,
        &Ok(Some("11".to_string())),
        "12",
    )
    .render();
    assert!(drifting.contains(
        "SCHEMA DRIFT: the database is at version 11 but this binary expects version 12."
    ));
    let unread: Result<Option<String>, String> = Err("io".to_string());
    assert_eq!(
        schema_note(&unread, "12"),
        "Applied schema version could not be read; this binary's head is v12."
    );
    let html = dashboard(&stats(), &server_values(), &None, &unread, "12").render();
    assert_eq!(
        config_value(&html, "schema.version (applied)"),
        "unreadable (io)"
    );
    let html = dashboard(&stats(), &server_values(), &None, &Ok(None), "12").render();
    assert_eq!(config_value(&html, "schema.version (applied)"), "not recorded");
}

#[test]
fn test_dashboard_shows_session_count() {
    let html = dashboard(&stats(), &server_values(), &None, &Ok(None), "12").render();
    assert!(html.contains("<tr><th>Sessions</th><td>2</td></tr>"));
    assert!(html.contains("Alexandria Debug Dashboard"));
    assert!(html.contains("Facts (active)"));
    assert!(html.contains("<tr><th>Clusters to split</th><td>1</td></tr>"));
    assert!(html.contains("<tr><th>Sessions finalized</th><td>1</td></tr>"));
    assert!(without_stats("gone")
        .body
        .contains("Failed to load stats: gone"));
}

// --- the graph ---

#[test]
fn test_graph_template_embeds_vendored_vis_network_not_a_cdn() {
    let html = GraphTemplate {
        nav: "memories",
        id: "fact:abc".into(),
        hops: DEFAULT_HOPS,
    }
    .render();

    assert!(html.contains(VIS_NETWORK_URL), "got: {html}");
    assert!(!html.contains("unpkg.com"), "no CDN references may remain");
    assert!(
        html.contains(r#"fetch("/debug/api/graph/fact%3Aabc?hops=2")"#),
        "id must be urlencoded inside the JS string literal; got: {html}"
    );
    assert!(
        html.contains(r#"href="/debug/graph/fact%3Aabc?hops=3""#),
        "hop control links must urlencode the id in the href too; got: {html}"
    );
    assert!(
        html.contains(r#""/debug/memories/" + encodeURIComponent(node.id)"#),
        "fact nodes must navigate to the memory detail page; got: {html}"
    );
    assert!(
        !html.contains("unpkg.com") && !html.contains("|safe"),
        "no CDN reference and no |safe in the rendered page"
    );
    assert!(
        html.contains("<h1>Graph: fact:abc</h1>"),
        "h1 is HTML text context and must stay unencoded; got: {html}"
    );
    let lib = html
        .find(VIS_NETWORK_URL)
        .expect("vis-network script tag missing");
    let inline = html.find("new vis.Network").expect("inline script missing");
    assert!(
        lib < inline,
        "vis-network must load before the inline script that uses `vis`"
    );
    assert!(
        html.contains(&format!(r#"<script src="{}"></script>"#, VIS_NETWORK_URL)),
        "vis-network must load plain, with no defer, so it executes before the inline script; got: {html}"
    );
    let canvas = html.find(r#"<div id="graph""#).expect("no canvas");
    assert!(canvas < inline, "the element must exist before the script runs");
}

#[test]
fn the_graph_is_drawn_by_the_maps_that_its_legend_explains() {
    let html = GraphTemplate {
        nav: "memories",
        id: "fact:abc".to_string(),
        hops: DEFAULT_HOPS,
    }
    .render();
    for styles in [node_styles(), edge_styles()] {
        for s in styles {
            let entry = format!(
                r#"["{}", {{ color: "{}", form: "{}" }}], "#,
                s.key, s.color, s.form
            );
            assert!(html.contains(&entry), "no {entry} in: {html}");
            let item = format!(
                r#"<li><span style="color: {}">■</span> {} ({})</li>"#,
                s.color, s.key, s.form
            );
            assert!(html.contains(&item), "no {item} in: {html}");
        }
    }
    for w in widths() {
        assert!(html.contains(&format!("[{}, {}], ", w.from, w.width)), "got: {html}");
        let item = format!("<li>strength from {}: width {}</li>", w.from, w.width);
        assert!(html.contains(&item), "no {item} in: {html}");
    }
    let tables: Vec<&str> = node_styles().iter().map(|s| s.key).collect();
    assert_eq!(tables, ["fact", "cluster", "raw", "session", "other"]);
    let types: Vec<&str> = edge_styles().iter().map(|s| s.key).collect();
    assert_eq!(
        types,
        ["relates_to", "supports", "contradicts", "derived_from", "extracted_from", "other"]
    );
    let fact = &node_styles()[0];
    assert!(node_styles()[1..]
        .iter()
        .all(|s| s.color != fact.color && s.form != fact.form));
}

#[test]
fn test_resolve_hops_clamps_and_defaults() {
    assert_eq!(resolve_hops(None), 2);
    assert_eq!(resolve_hops(Some("1")), 1);
    assert_eq!(resolve_hops(Some("2")), 2);
    assert_eq!(resolve_hops(Some("3")), 3);
    assert_eq!(
        resolve_hops(Some("99")),
        3,
        "99 must be clamped, not honoured"
    );
    assert_eq!(resolve_hops(Some("4294967296")), DEFAULT_HOPS);
    assert!(resolve_hops(Some("99999999999999999999999")) <= MAX_HOPS);
    assert_eq!(
        resolve_hops(Some("0")),
        1,
        "0 must clamp up, not mean 'no traversal'"
    );
    assert_eq!(resolve_hops(Some("-1")), 2);
    assert_eq!(resolve_hops(Some("abc")), 2);
    assert_eq!(resolve_hops(Some("")), 2);
    assert_eq!(resolve_hops(Some("   ")), 2);
    assert_eq!(resolve_hops(Some("2.5")), 2);
}

#[test]
fn test_label_snippet_bounds_and_marks() {
    assert_eq!(label_snippet("  short   one  "), "short one");
    assert_eq!(label_snippet(""), "");
    let exact = "a".repeat(40);
    assert_eq!(
        label_snippet(&exact),
        exact,
        "exactly 40 chars is not truncated"
    );
    let over = format!("{}b", "c".repeat(40));
    assert_eq!(label_snippet(&over), format!("{}…", "c".repeat(40)));
    // Multi-byte content must be sliced by characters, not bytes.
    assert_eq!(
        label_snippet(&"é".repeat(45)),
        format!("{}…", "é".repeat(40)),
        "must not split a multi-byte char"
    );
    let tabbed = String::from("newlines\tand   tabs   collapse into a single label line");
    let snippet = label_snippet(&tabbed);
    assert!(
        !snippet.contains('\t') && !snippet.contains("  "),
        "whitespace must collapse so a label fits one line: {snippet:?}"
    );
}

#[test]
fn a_label_fits_one_line_and_labels_itself() {
    // The cut falls behind a space, inside a word, and nowhere.
    let behind_space = format!("{} {}", "a".repeat(39), "b".repeat(9));
    for content in [
        behind_space.as_str(),
        "one\u{2003}two\r\n\r\nthree\u{85}four five six seven eight nine ten",
        " \t spaced \u{a0} out ",
        "\u{3000}\u{2029}",
    ] {
        let label = label_snippet(content);
        let chars: Vec<char> = label.chars().collect();
        assert!(chars.iter().all(|c| *c == ' ' || !c.is_whitespace()), "{label:?}");
        assert!(
            chars.windows(2).all(|w| !(w[0].is_whitespace() && w[1].is_whitespace())),
            "{label:?}"
        );
        assert_eq!(label_snippet(&label), label);
    }
    assert_eq!(label_snippet(&behind_space), format!("{} …", "a".repeat(39)));
    assert_eq!(label_snippet(" \t spaced \u{a0} out "), "spaced out");
}

fn near(id: &str, hop: u32) -> Neighbor {
    Neighbor {
        id: id.into(),
        hop,
    }
}

#[test]
fn nodes_are_drawn_once_at_their_shortest_distance() {
    let nodes = collect_nodes(
        "fact:a",
        &vec![near("fact:b", 2), near("entity:c", 1), near("fact:b", 1), near("fact:a", 2)],
    );
    assert_eq!(nodes.ids, vec!["fact:a", "fact:b", "entity:c"]);
    assert_eq!(nodes.hops, vec![0, 1, 1]);
    assert_eq!(facts_among(&nodes.ids), vec![0, 1]);
    let drawn = draw_nodes(
        &nodes,
        &vec![Some("what a says".to_string()), None, None],
    );
    assert_eq!(drawn[0].label, "what a says");
    assert_eq!(drawn[1].label, "fact:b");
    assert_eq!(drawn[2].table, "entity");
    assert_eq!(drawn[2].title, node_tooltip("entity:c", 1));
    assert_eq!(node_table_of("fact:a"), "fact");
}

fn edge(from: &str, to: &str) -> EdgeRow {
    EdgeRow {
        from: from.into(),
        to: to.into(),
        edge_type: "related".into(),
    }
}

#[test]
fn edges_join_drawn_nodes_and_are_drawn_once() {
    let ids = vec!["fact:a".to_string(), "fact:b".to_string()];
    let rows = vec![
        edge("fact:a", "fact:b"),
        edge("fact:a", "fact:b"),
        edge("fact:a", "fact:z"),
        edge("fact:b", "fact:a"),
    ];
    assert_eq!(draw_edges(&rows, &ids), vec![0, 3]);
}

#[test]
fn a_graph_is_bounded_and_says_so() {
    let many: Vec<Neighbor> = (0..300).map(|i| near(&format!("fact:{i}"), 1)).collect();
    let drawn = bound_nodes(collect_nodes("fact:centre", &many));
    assert!(drawn.truncated);
    assert_eq!(drawn.nodes.ids.len(), MAX_NODES);
    assert_eq!(drawn.nodes.ids[0], "fact:centre");
    assert_eq!(drawn.nodes.hops.len(), MAX_NODES);
    let few = bound_nodes(collect_nodes("fact:centre", &vec![near("fact:1", 1)]));
    assert!(!few.truncated);
    assert_eq!(few.nodes.ids.len(), 2);
}
