//! The dashboard: counts, rollups, and the configuration in effect.
use vstd::prelude::*;

use crate::debug::clusters::ClusterHealth;
use crate::debug::html::{cell_html, error_page, escaped, layout_html, Answer};
use crate::debug::rollups::{copy_tags, HeatBands, TagCount};
use crate::debug::sessions::SessionRollup;
use crate::numbers::{decimal_text, size_text};
use crate::text::{copy_of, same};

verus! {

/// Shown in place of a value that this process does not know. It looks like no value.
pub const UNAVAILABLE: &'static str = "unavailable outside HTTP mode";

/// The resolved configuration that only the dashboard shows.
#[derive(Debug)]
pub struct DebugContext {
    /// The model that was asked for.
    pub embedding_model: String,
    pub embedding_device: String,
    pub transport: String,
    pub bind_host: String,
    pub bind_port: u16,
    pub data_dir: String,
    /// Already written out.
    pub cluster_merge_threshold: String,
    pub maintenance_interval_secs: u64,
    pub allowed_hosts: Vec<String>,
}

/// What the running server holds, with its fractions already written out.
#[derive(Debug)]
pub struct ServerValues {
    pub retrieve_min_similarity: String,
    pub activation_top_n: usize,
    pub propagation_factor: String,
    pub max_hops: u32,
    pub cluster_join_threshold: String,
    pub cohesion_floor: String,
    pub heat_spacing_halflife: String,
    /// The model that was loaded.
    pub model_id: String,
    pub dimensions: usize,
}

/// How many records there are of each sort.
#[derive(Debug)]
pub struct Stats {
    pub fact_count: usize,
    pub deleted_fact_count: usize,
    pub cluster_count: usize,
    pub edge_count: usize,
    pub raw_count: usize,
    pub session_count: usize,
    pub clusters: ClusterHealth,
    pub sessions: SessionRollup,
    /// The tags that active memories use most.
    pub top_tags: Vec<TagCount>,
    /// How warm the active memories are.
    pub heat: HeatBands,
}

/// A row of the configuration.
#[derive(Debug)]
pub struct ConfigRow {
    pub label: &'static str,
    pub value: String,
}

/// The dashboard.
#[derive(Debug)]
pub struct DashboardTemplate {
    pub nav: &'static str,
    pub fact_count: usize,
    pub deleted_fact_count: usize,
    pub cluster_count: usize,
    pub edge_count: usize,
    pub raw_count: usize,
    pub session_count: usize,
    pub clusters: ClusterHealth,
    pub sessions: SessionRollup,
    pub top_tags: Vec<TagCount>,
    pub heat: HeatBands,
    pub config_rows: Vec<ConfigRow>,
    pub schema_note: String,
}

/// A label and its value.
pub type Entry = (Seq<char>, Seq<char>);

/// The labels and values of rows.
pub open spec fn entries(rows: Seq<ConfigRow>) -> Seq<Entry> {
    rows.map_values(|r: ConfigRow| (r.label@, r.value@))
}

/// What the server holds, by label.
pub open spec fn server_entries(s: ServerValues) -> Seq<Entry> {
    seq![
        ("retrieve.min_similarity"@, s.retrieve_min_similarity@),
        ("activation.top_n"@, crate::numbers::decimal(s.activation_top_n as nat)),
        ("activation.propagation_factor"@, s.propagation_factor@),
        ("activation.max_hops"@, crate::numbers::decimal(s.max_hops as nat)),
        ("cluster.join_threshold"@, s.cluster_join_threshold@),
        ("cluster.cohesion_floor"@, s.cohesion_floor@),
        ("heat.spacing_halflife_secs"@, s.heat_spacing_halflife@),
        ("embedding.model (loaded)"@, s.model_id@),
        ("embedding.dimensions (loaded)"@, crate::numbers::decimal(s.dimensions as nat)),
    ]
}

fn row_str(label: &'static str, value: String) -> (r: ConfigRow)
    ensures
        r.label@ == label@,
        r.value@ == value@,
{
    ConfigRow { label, value }
}

/// What the server itself holds. It is known in every mode.
pub fn server_rows(server: &ServerValues) -> (r: Vec<ConfigRow>)
    ensures
        entries(r@) == server_entries(*server),
{
    let mut rows: Vec<ConfigRow> = Vec::new();
    rows.push(
        row_str("retrieve.min_similarity", copy_of(server.retrieve_min_similarity.as_str())),
    );
    rows.push(row_str("activation.top_n", size_text(server.activation_top_n)));
    rows.push(
        row_str("activation.propagation_factor", copy_of(server.propagation_factor.as_str())),
    );
    rows.push(row_str("activation.max_hops", decimal_text(server.max_hops as u64)));
    rows.push(row_str("cluster.join_threshold", copy_of(server.cluster_join_threshold.as_str())));
    rows.push(row_str("cluster.cohesion_floor", copy_of(server.cohesion_floor.as_str())));
    rows.push(row_str("heat.spacing_halflife_secs", copy_of(server.heat_spacing_halflife.as_str())));
    rows.push(row_str("embedding.model (loaded)", copy_of(server.model_id.as_str())));
    rows.push(row_str("embedding.dimensions (loaded)", size_text(server.dimensions)));
    assert(entries(rows@) =~= server_entries(*server));
    rows
}

/// A value, or the words for an unknown one.
pub open spec fn or_unavailable(value: Option<Seq<char>>) -> Seq<char> {
    match value {
        Some(v) => v,
        None => UNAVAILABLE@,
    }
}

/// A field of the context, where there is a context.
pub open spec fn of_context(ctx: Option<DebugContext>, field: spec_fn(DebugContext) -> Seq<char>) -> Seq<
    char,
> {
    or_unavailable(
        match ctx {
            Some(c) => Some(field(c)),
            None => None,
        },
    )
}

/// What the context says, by label. Without one every value is unknown.
pub open spec fn context_entries(ctx: Option<DebugContext>) -> Seq<Entry> {
    seq![
        ("server.transport"@, of_context(ctx, |c: DebugContext| c.transport@)),
        ("server.host"@, of_context(ctx, |c: DebugContext| c.bind_host@)),
        (
            "server.port"@,
            of_context(ctx, |c: DebugContext| crate::numbers::decimal(c.bind_port as nat)),
        ),
        ("database.data_dir"@, of_context(ctx, |c: DebugContext| c.data_dir@)),
        ("cluster.merge_threshold"@, of_context(ctx, |c: DebugContext| c.cluster_merge_threshold@)),
        (
            "cluster.maintenance_interval_secs"@,
            of_context(
                ctx,
                |c: DebugContext| crate::numbers::decimal(c.maintenance_interval_secs as nat),
            ),
        ),
        ("embedding.model (config file)"@, of_context(ctx, |c: DebugContext| c.embedding_model@)),
        ("embedding.device (config file)"@, of_context(ctx, |c: DebugContext| c.embedding_device@)),
    ]
}

/// Without a context no row claims a value.
pub proof fn nothing_is_claimed_without_a_context(i: int)
    requires
        0 <= i < context_entries(None).len(),
    ensures
        context_entries(None)[i].1 == UNAVAILABLE@,
{
}

/// What only a server that listens can answer.
pub fn context_rows(ctx: &Option<DebugContext>) -> (r: Vec<ConfigRow>)
    ensures
        entries(r@) == context_entries(*ctx),
{
    let mut rows: Vec<ConfigRow> = Vec::new();
    match ctx {
        Some(c) => {
            rows.push(row_str("server.transport", copy_of(c.transport.as_str())));
            rows.push(row_str("server.host", copy_of(c.bind_host.as_str())));
            rows.push(row_str("server.port", decimal_text(c.bind_port as u64)));
            rows.push(row_str("database.data_dir", copy_of(c.data_dir.as_str())));
            rows.push(row_str("cluster.merge_threshold", copy_of(c.cluster_merge_threshold.as_str())));
            rows.push(
                row_str(
                    "cluster.maintenance_interval_secs",
                    decimal_text(c.maintenance_interval_secs),
                ),
            );
            rows.push(row_str("embedding.model (config file)", copy_of(c.embedding_model.as_str())));
            rows.push(
                row_str("embedding.device (config file)", copy_of(c.embedding_device.as_str())),
            );
        },
        None => {
            rows.push(row_str("server.transport", copy_of(UNAVAILABLE)));
            rows.push(row_str("server.host", copy_of(UNAVAILABLE)));
            rows.push(row_str("server.port", copy_of(UNAVAILABLE)));
            rows.push(row_str("database.data_dir", copy_of(UNAVAILABLE)));
            rows.push(row_str("cluster.merge_threshold", copy_of(UNAVAILABLE)));
            rows.push(row_str("cluster.maintenance_interval_secs", copy_of(UNAVAILABLE)));
            rows.push(row_str("embedding.model (config file)", copy_of(UNAVAILABLE)));
            rows.push(row_str("embedding.device (config file)", copy_of(UNAVAILABLE)));
        },
    }
    assert(entries(rows@) =~= context_entries(*ctx));
    rows
}

/// The schema version of the database, as it could be read.
pub open spec fn applied_says(applied: Result<Option<String>, String>) -> Seq<char> {
    match applied {
        Ok(Some(v)) => v@,
        Ok(None) => "not recorded"@,
        Err(e) => "unreadable ("@ + e@ + ")"@,
    }
}

/// The schema version of the database, as it could be read.
pub fn applied_text(applied: &Result<Option<String>, String>) -> (r: String)
    ensures
        r@ == applied_says(*applied),
{
    match applied {
        Ok(Some(v)) => copy_of(v.as_str()),
        Ok(None) => copy_of("not recorded"),
        Err(e) => {
            let mut r = copy_of("unreadable (");
            r.append(e.as_str());
            r.append(")");
            r
        },
    }
}

/// The schema versions, by label.
pub open spec fn schema_entries(applied: Result<Option<String>, String>, head: Seq<char>) -> Seq<
    Entry,
> {
    seq![
        ("schema.version (applied)"@, applied_says(applied)),
        ("schema.version (compiled-in head)"@, head),
    ]
}

/// The version of the database, and the one that the binary expects.
pub fn schema_rows(applied: &Result<Option<String>, String>, head: &str) -> (r: Vec<ConfigRow>)
    ensures
        entries(r@) == schema_entries(*applied, head@),
{
    let mut rows: Vec<ConfigRow> = Vec::new();
    rows.push(row_str("schema.version (applied)", applied_text(applied)));
    rows.push(row_str("schema.version (compiled-in head)", copy_of(head)));
    assert(entries(rows@) =~= schema_entries(*applied, head@));
    rows
}

/// The note about the schema: empty where the versions agree. A version that could not be read is no
/// drift.
pub open spec fn note(applied: Result<Option<String>, String>, head: Seq<char>) -> Seq<char> {
    match applied {
        Ok(Some(v)) => if v@ == head {
            ""@
        } else {
            "SCHEMA DRIFT: the database is at version "@ + v@ + " but this binary expects version "@
                + head
                + ". Migrations are pending — the server may be running a schema it does not fully understand."@
        },
        _ => "Applied schema version could not be read; this binary's head is v"@ + head + "."@,
    }
}

/// The note about the schema.
pub fn schema_note(applied: &Result<Option<String>, String>, head: &str) -> (r: String)
    ensures
        r@ == note(*applied, head@),
{
    match applied {
        Ok(Some(v)) => if same(v.as_str(), head) {
            copy_of("")
        } else {
            let mut r = copy_of("SCHEMA DRIFT: the database is at version ");
            r.append(v.as_str());
            r.append(" but this binary expects version ");
            r.append(head);
            r.append(
                ". Migrations are pending — the server may be running a schema it does not fully understand.",
            );
            r
        },
        _ => {
            let mut r = copy_of("Applied schema version could not be read; this binary's head is v");
            r.append(head);
            r.append(".");
            r
        },
    }
}

/// The note is silent exactly where the database was read and is at the version that the binary
/// expects.
pub proof fn silence_means_agreement(applied: Result<Option<String>, String>, head: Seq<char>)
    ensures
        note(applied, head).len() == 0 <==> (applied is Ok && applied->Ok_0 is Some
            && applied->Ok_0->0@ == head),
{
    reveal_strlit("");
    reveal_strlit("SCHEMA DRIFT: the database is at version ");
    reveal_strlit("Applied schema version could not be read; this binary's head is v");
}

/// The dashboard.
pub fn dashboard(
    stats: &Stats,
    server: &ServerValues,
    ctx: &Option<DebugContext>,
    applied: &Result<Option<String>, String>,
    head: &str,
) -> (r: DashboardTemplate)
    ensures
        r.nav@ == "dashboard"@,
        r.fact_count == stats.fact_count,
        r.deleted_fact_count == stats.deleted_fact_count,
        r.cluster_count == stats.cluster_count,
        r.edge_count == stats.edge_count,
        r.raw_count == stats.raw_count,
        r.session_count == stats.session_count,
        r.clusters == stats.clusters,
        r.sessions == stats.sessions,
        crate::debug::rollups::tag_entries(r.top_tags@) == crate::debug::rollups::tag_entries(
            stats.top_tags@,
        ),
        r.heat == stats.heat,
        entries(r.config_rows@) == server_entries(*server) + context_entries(*ctx)
            + schema_entries(*applied, head@),
        r.schema_note@ == note(*applied, head@),
{
    let mut config_rows = server_rows(server);
    let mut from_context = context_rows(ctx);
    let mut from_schema = schema_rows(applied, head);
    let ghost a = config_rows@;
    let ghost b = from_context@;
    let ghost c = from_schema@;
    config_rows.append(&mut from_context);
    config_rows.append(&mut from_schema);
    assert(entries(a + b + c) =~= entries(a) + entries(b) + entries(c));
    DashboardTemplate {
        nav: "dashboard",
        fact_count: stats.fact_count,
        deleted_fact_count: stats.deleted_fact_count,
        cluster_count: stats.cluster_count,
        edge_count: stats.edge_count,
        raw_count: stats.raw_count,
        session_count: stats.session_count,
        clusters: stats.clusters,
        sessions: stats.sessions,
        top_tags: copy_tags(&stats.top_tags),
        heat: stats.heat,
        config_rows,
        schema_note: schema_note(applied, head),
    }
}

/// The page where the counts could not be read.
pub fn without_stats(err: &str) -> (r: Answer)
    ensures
        r.status == 200,
        r.body@ == crate::debug::html::error_html(
            "dashboard"@,
            "Failed to load stats: "@ + err@,
        ),
{
    let mut m = copy_of("Failed to load stats: ");
    m.append(err);
    error_page("dashboard", m.as_str())
}

// ---------------------------------------------------------------------------
// Rendering
// ---------------------------------------------------------------------------
/// A row with a label and a value.
pub open spec fn labelled(label: Seq<char>, value: Seq<char>) -> Seq<char> {
    "<tr><th>"@ + crate::debug::html::escape(label) + "</th><td>"@ + crate::debug::html::escape(value)
        + "</td></tr>"@
}

fn labelled_html(label: &str, value: &str) -> (r: String)
    ensures
        r@ == labelled(label@, value@),
{
    let mut r = copy_of("<tr><th>");
    let l = escaped(label);
    r.append(l.as_str());
    r.append("</th><td>");
    let v = escaped(value);
    r.append(v.as_str());
    r.append("</td></tr>");
    r
}

/// Rows with labels and values, one after the other.
pub open spec fn labelled_rows(rows: Seq<Entry>) -> Seq<char>
    decreases rows.len(),
{
    if rows.len() == 0 {
        seq![]
    } else {
        labelled_rows(rows.drop_last()) + labelled(rows.last().0, rows.last().1)
    }
}

fn labelled_rows_html(rows: &Vec<ConfigRow>) -> (r: String)
    ensures
        r@ == labelled_rows(entries(rows@)),
{
    let ghost all = entries(rows@);
    let mut r = String::new();
    let mut i: usize = 0;
    assert(all.take(0) =~= seq![]);
    while i < rows.len()
        invariant
            i <= rows@.len(),
            all == entries(rows@),
            r@ == labelled_rows(all.take(i as int)),
        decreases rows@.len() - i,
    {
        assert(all.take(i + 1).drop_last() =~= all.take(i as int));
        assert(all.take(i + 1).last() == (rows@[i as int].label@, rows@[i as int].value@));
        let row = labelled_html(rows[i].label, rows[i].value.as_str());
        r.append(row.as_str());
        i = i + 1;
    }
    assert(all.take(all.len() as int) =~= all);
    r
}

/// Tags with their numbers of uses, a row each.
pub open spec fn tag_rows(tags: Seq<crate::debug::rollups::TagEntry>) -> Seq<char>
    decreases tags.len(),
{
    if tags.len() == 0 {
        seq![]
    } else {
        tag_rows(tags.drop_last()) + "<tr>"@ + crate::debug::html::cell(tags.last().0)
            + crate::debug::html::cell(crate::numbers::decimal(tags.last().1)) + "</tr>"@
    }
}

fn tag_rows_html(tags: &Vec<TagCount>) -> (r: String)
    ensures
        r@ == tag_rows(crate::debug::rollups::tag_entries(tags@)),
{
    let ghost all = crate::debug::rollups::tag_entries(tags@);
    let mut r = String::new();
    let mut i: usize = 0;
    assert(all.take(0) =~= seq![]);
    while i < tags.len()
        invariant
            i <= tags@.len(),
            all == crate::debug::rollups::tag_entries(tags@),
            r@ == tag_rows(all.take(i as int)),
        decreases tags@.len() - i,
    {
        assert(all.take(i + 1).drop_last() =~= all.take(i as int));
        assert(all.take(i + 1).last() == (tags@[i as int].tag@, tags@[i as int].uses as nat));
        r.append("<tr>");
        let tag = cell_html(tags[i].tag.as_str());
        r.append(tag.as_str());
        let n = size_text(tags[i].uses);
        let uses = cell_html(n.as_str());
        r.append(uses.as_str());
        r.append("</tr>");
        i = i + 1;
    }
    assert(all.take(all.len() as int) =~= all);
    r
}

impl DashboardTemplate {
    /// The counts, by label.
    pub open spec fn counts(self) -> Seq<char> {
        labelled("Facts (active)"@, crate::numbers::decimal(self.fact_count as nat)) + labelled(
            "Facts (deleted)"@,
            crate::numbers::decimal(self.deleted_fact_count as nat),
        ) + labelled("Clusters"@, crate::numbers::decimal(self.cluster_count as nat)) + labelled(
            "Edges"@,
            crate::numbers::decimal(self.edge_count as nat),
        ) + labelled("Raw documents"@, crate::numbers::decimal(self.raw_count as nat)) + labelled(
            "Sessions"@,
            crate::numbers::decimal(self.session_count as nat),
        )
    }

    /// The rollups, by label.
    pub open spec fn rollups(self) -> Seq<char> {
        labelled("Clusters healthy"@, crate::numbers::decimal(self.clusters.healthy as nat))
            + labelled(
            "Clusters to split"@,
            crate::numbers::decimal(self.clusters.needs_split as nat),
        ) + labelled(
            "Clusters too small to judge"@,
            crate::numbers::decimal(self.clusters.too_small as nat),
        ) + labelled(
            "Sessions finalized"@,
            crate::numbers::decimal(self.sessions.finalized as nat),
        ) + labelled("Sessions idle"@, crate::numbers::decimal(self.sessions.idle as nat))
    }

    /// How many active memories are how warm, by label.
    pub open spec fn heat_rows(self) -> Seq<char> {
        labelled("Below 0.25"@, crate::numbers::decimal(self.heat.cold as nat)) + labelled(
            "0.25 to below 0.5"@,
            crate::numbers::decimal(self.heat.cool as nat),
        ) + labelled("0.5 to below 1"@, crate::numbers::decimal(self.heat.warm as nat)) + labelled(
            "1 and above"@,
            crate::numbers::decimal(self.heat.hot as nat),
        )
    }

    /// The tags used most, or that there is none.
    pub open spec fn tags_table(self) -> Seq<char> {
        "<table><tr><th>Tag</th><th>Uses</th></tr>"@ + (if self.top_tags@.len() == 0 {
            "<tr><td colspan=\"2\" class=\"empty\">No tags.</td></tr>"@
        } else {
            tag_rows(crate::debug::rollups::tag_entries(self.top_tags@))
        }) + "</table>"@
    }

    /// The page as text; a note about the schema stands out, and is left out where it is empty.
    pub open spec fn html(self) -> Seq<char> {
        crate::debug::html::layout(
            self.nav@,
            "<h1>Alexandria Debug Dashboard</h1>"@ + (if self.schema_note@.len() == 0 {
                ""@
            } else {
                "<p class=\"error\">"@ + crate::debug::html::escape(self.schema_note@) + "</p>"@
            }) + "<table>"@ + self.counts() + "</table><h2>Rollups</h2><table>"@ + self.rollups()
                + "</table><h3>Heat distribution</h3><table>"@ + self.heat_rows()
                + "</table><h3>Top tags</h3>"@ + self.tags_table()
                + "<h2>Effective configuration</h2><table>"@
                + labelled_rows(entries(self.config_rows@)) + "</table>"@,
        )
    }

    fn render_counts(&self) -> (r: String)
        ensures
            r@ == self.counts(),
    {
        let n = size_text(self.fact_count);
        let mut r = labelled_html("Facts (active)", n.as_str());
        let n = size_text(self.deleted_fact_count);
        let row = labelled_html("Facts (deleted)", n.as_str());
        r.append(row.as_str());
        let n = size_text(self.cluster_count);
        let row = labelled_html("Clusters", n.as_str());
        r.append(row.as_str());
        let n = size_text(self.edge_count);
        let row = labelled_html("Edges", n.as_str());
        r.append(row.as_str());
        let n = size_text(self.raw_count);
        let row = labelled_html("Raw documents", n.as_str());
        r.append(row.as_str());
        let n = size_text(self.session_count);
        let row = labelled_html("Sessions", n.as_str());
        r.append(row.as_str());
        r
    }

    fn render_rollups(&self) -> (r: String)
        ensures
            r@ == self.rollups(),
    {
        let n = size_text(self.clusters.healthy);
        let mut r = labelled_html("Clusters healthy", n.as_str());
        let n = size_text(self.clusters.needs_split);
        let row = labelled_html("Clusters to split", n.as_str());
        r.append(row.as_str());
        let n = size_text(self.clusters.too_small);
        let row = labelled_html("Clusters too small to judge", n.as_str());
        r.append(row.as_str());
        let n = size_text(self.sessions.finalized);
        let row = labelled_html("Sessions finalized", n.as_str());
        r.append(row.as_str());
        let n = size_text(self.sessions.idle);
        let row = labelled_html("Sessions idle", n.as_str());
        r.append(row.as_str());
        r
    }

    fn render_heat(&self) -> (r: String)
        ensures
            r@ == self.heat_rows(),
    {
        let n = size_text(self.heat.cold);
        let mut r = labelled_html("Below 0.25", n.as_str());
        let n = size_text(self.heat.cool);
        let row = labelled_html("0.25 to below 0.5", n.as_str());
        r.append(row.as_str());
        let n = size_text(self.heat.warm);
        let row = labelled_html("0.5 to below 1", n.as_str());
        r.append(row.as_str());
        let n = size_text(self.heat.hot);
        let row = labelled_html("1 and above", n.as_str());
        r.append(row.as_str());
        r
    }

    fn render_tags(&self) -> (r: String)
        ensures
            r@ == self.tags_table(),
    {
        let mut r = copy_of("<table><tr><th>Tag</th><th>Uses</th></tr>");
        let rows = if self.top_tags.len() == 0 {
            copy_of("<tr><td colspan=\"2\" class=\"empty\">No tags.</td></tr>")
        } else {
            tag_rows_html(&self.top_tags)
        };
        r.append(rows.as_str());
        r.append("</table>");
        r
    }

    /// Renders the page.
    pub fn render(&self) -> (r: String)
        ensures
            r@ == self.html(),
    {
        let mut body = copy_of("<h1>Alexandria Debug Dashboard</h1>");
        let warning = if self.schema_note.as_str().is_empty() {
            copy_of("")
        } else {
            let mut w = copy_of("<p class=\"error\">");
            let e = escaped(self.schema_note.as_str());
            w.append(e.as_str());
            w.append("</p>");
            w
        };
        body.append(warning.as_str());
        body.append("<table>");
        let counts = self.render_counts();
        body.append(counts.as_str());
        body.append("</table><h2>Rollups</h2><table>");
        let rollups = self.render_rollups();
        body.append(rollups.as_str());
        body.append("</table><h3>Heat distribution</h3><table>");
        let heat = self.render_heat();
        body.append(heat.as_str());
        body.append("</table><h3>Top tags</h3>");
        let tags = self.render_tags();
        body.append(tags.as_str());
        body.append("<h2>Effective configuration</h2><table>");
        let rows = labelled_rows_html(&self.config_rows);
        body.append(rows.as_str());
        body.append("</table>");
        layout_html(self.nav, body.as_str())
    }
}

} // verus!
