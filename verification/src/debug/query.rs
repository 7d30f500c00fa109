//! The query tester: the form, what it asks for, and the fragment that answers it.
use vstd::prelude::*;

use crate::debug::html::{badges_html, cell_html, escaped, layout_html, record_link_html};
use crate::json::{read_decimals, read_fault, read_items, read_string};
use crate::numbers::size_text;
use crate::text::{copy_of, copy_texts, is_blank, same};
use crate::tools::{RecallParams, RetrieveMemoriesParams};

verus! {

/// The page with the form.
#[derive(Debug)]
pub struct QueryTemplate {
    pub nav: &'static str,
}

/// What the form holds when it is sent.
#[derive(Debug)]
pub struct QueryForm {
    pub mode: String,
    pub query: String,
    /// Only for `retrieve`.
    pub limit: Option<usize>,
    /// Only for `retrieve`; a field left empty arrives as an empty text.
    pub session_id: Option<String>,
    /// Only for `retrieve`: `true` where the box is ticked.
    pub dry_run: Option<String>,
}

impl QueryTemplate {
    /// The page as text. Nothing is filled in: the form is never shown again with what was sent.
    pub open spec fn html(self) -> Seq<char> {
        crate::debug::html::layout(
            self.nav@,
            "<h1>Query Tester</h1><form hx-post=\"/debug/query/run\" hx-target=\"#query-results\"><label>Mode <select name=\"mode\"><option value=\"retrieve\">retrieve</option><option value=\"recall\">recall</option></select></label><label>Query <input type=\"text\" name=\"query\"></label><label>Limit (retrieve only) <input type=\"number\" name=\"limit\" value=\"5\"></label><label>Session ID (retrieve only) <input type=\"text\" name=\"session_id\" placeholder=\"external session id, blank for all\"></label><label><input type=\"checkbox\" name=\"dry_run\" value=\"true\"> Dry run (retrieve only)</label><button type=\"submit\">Run</button></form><div id=\"query-results\"></div>"@,
        )
    }

    /// Renders the page.
    pub fn render(&self) -> (r: String)
        ensures
            r@ == self.html(),
    {
        layout_html(
            self.nav,
            "<h1>Query Tester</h1><form hx-post=\"/debug/query/run\" hx-target=\"#query-results\"><label>Mode <select name=\"mode\"><option value=\"retrieve\">retrieve</option><option value=\"recall\">recall</option></select></label><label>Query <input type=\"text\" name=\"query\"></label><label>Limit (retrieve only) <input type=\"number\" name=\"limit\" value=\"5\"></label><label>Session ID (retrieve only) <input type=\"text\" name=\"session_id\" placeholder=\"external session id, blank for all\"></label><label><input type=\"checkbox\" name=\"dry_run\" value=\"true\"> Dry run (retrieve only)</label><button type=\"submit\">Run</button></form><div id=\"query-results\"></div>",
        )
    }
}

/// The page with the form.
pub fn form() -> (r: QueryTemplate)
    ensures
        r.nav@ == "query"@,
{
    QueryTemplate { nav: "query" }
}

// ---------------------------------------------------------------------------
// What the form asks for
// ---------------------------------------------------------------------------
/// What to run, or the answer where nothing is run.
#[derive(Debug)]
pub enum Run {
    /// A dry run writes no heat.
    Retrieve { params: RetrieveMemoriesParams, dry_run: bool },
    Recall(RecallParams),
    Answer(Fragment),
}

/// The session that a form names; a blank one is none.
pub open spec fn scope_of(session_id: Option<Seq<char>>) -> Option<Seq<char>> {
    match session_id {
        Some(s) => if crate::text::blank(s) {
            None
        } else {
            Some(s)
        },
        None => None,
    }
}

/// What a form asks for. A recall knows neither a limit nor a session.
pub fn run(form: &QueryForm) -> (r: Run)
    ensures
        match r {
            Run::Retrieve { params: p, dry_run } => {
                &&& form.mode@ == "retrieve"@
                &&& dry_run == (crate::text::opt_text(form.dry_run) == Some("true"@))
                &&& p.query@ == form.query@
                &&& p.limit == form.limit
                &&& crate::text::opt_text(p.session_id) == scope_of(
                    crate::text::opt_text(form.session_id),
                )
            },
            Run::Recall(p) => {
                &&& form.mode@ != "retrieve"@
                &&& form.mode@ == "recall"@
                &&& p.query@ == form.query@
                &&& p.scope_handle is None
            },
            Run::Answer(f) => {
                &&& form.mode@ != "retrieve"@
                &&& form.mode@ != "recall"@
                &&& f matches Fragment::Error { message }
                &&& message@ == "Unknown mode: "@ + form.mode@
            },
        },
{
    if same(form.mode.as_str(), "retrieve") {
        let session_id = match &form.session_id {
            Some(s) => if is_blank(s.as_str()) {
                None
            } else {
                Some(copy_of(s.as_str()))
            },
            None => None,
        };
        let dry_run = match &form.dry_run {
            Some(s) => same(s.as_str(), "true"),
            None => false,
        };
        return Run::Retrieve {
            params: RetrieveMemoriesParams {
                query: copy_of(form.query.as_str()),
                limit: form.limit,
                session_id,
            },
            dry_run,
        };
    }
    if same(form.mode.as_str(), "recall") {
        return Run::Recall(
            RecallParams { query: copy_of(form.query.as_str()), scope_handle: None },
        );
    }
    let mut message = copy_of("Unknown mode: ");
    message.append(form.mode.as_str());
    Run::Answer(Fragment::Error { message })
}

// ---------------------------------------------------------------------------
// The answer
// ---------------------------------------------------------------------------
/// A row of the results.
#[derive(Debug)]
pub struct ResultRow {
    pub id: String,
    pub content: String,
    pub similarity: String,
}

/// A cluster of a broad recall.
#[derive(Debug)]
pub struct RecallCluster {
    pub id: String,
    pub similarity: String,
    pub contents: Vec<String>,
}

/// What answers a form.
#[derive(Debug)]
pub enum Fragment {
    Error { message: String },
    Notice { message: String },
    Table { heading: Option<&'static str>, rows: Vec<ResultRow> },
    Clusters { sections: Vec<RecallCluster> },
}

/// The place of a field of an item of an array.
pub open spec fn field_place(array: Seq<char>, i: int, field: Seq<char>) -> Seq<char> {
    array + "/"@ + crate::numbers::decimal(i as nat) + field
}

fn field_place_text(array: &str, i: usize, field: &str) -> (r: String)
    ensures
        r@ == field_place(array@, i as int, field@),
{
    let mut r = copy_of(array);
    r.append("/");
    let n = size_text(i);
    r.append(n.as_str());
    r.append(field);
    r
}

/// A string field of an item, empty where it is no string.
pub open spec fn string_field(text: Seq<char>, array: Seq<char>, i: int, field: Seq<char>) -> Seq<
    char,
> {
    match crate::json::json_string(text, field_place(array, i, field)) {
        Some(s) => s,
        None => ""@,
    }
}

fn string_field_text(text: &str, array: &str, i: usize, field: &str) -> (r: String)
    ensures
        r@ == string_field(text@, array@, i as int, field@),
{
    let place = field_place_text(array, i, field);
    match read_string(text, place.as_str()) {
        Some(s) => s,
        None => copy_of(""),
    }
}

/// Decimals of a similarity.
pub const SIMILARITY_DECIMALS: usize = 4;

/// The similarity of an item, zero where it has none.
pub open spec fn similarity_field(text: Seq<char>, array: Seq<char>, i: int) -> Seq<char> {
    match crate::json::json_decimals(
        text,
        field_place(array, i, "/similarity"@),
        SIMILARITY_DECIMALS,
    ) {
        Some(s) => s,
        None => "0.0000"@,
    }
}

fn similarity_field_text(text: &str, array: &str, i: usize) -> (r: String)
    ensures
        r@ == similarity_field(text@, array@, i as int),
{
    let place = field_place_text(array, i, "/similarity");
    match read_decimals(text, place.as_str(), SIMILARITY_DECIMALS) {
        Some(s) => s,
        None => copy_of("0.0000"),
    }
}

/// How many items there are at a place; none where there is no array.
pub open spec fn item_count(text: Seq<char>, array: Seq<char>) -> int {
    match crate::json::json_items(text, array) {
        Some(n) => n as int,
        None => 0,
    }
}

fn count_items(text: &str, array: &str) -> (r: usize)
    ensures
        r == item_count(text@, array@),
{
    match read_items(text, array) {
        Some(n) => n,
        None => 0,
    }
}

/// Whether these are the rows at a place of a reply, those before position `from` left out.
pub open spec fn are_rows_from(
    rows: Seq<ResultRow>,
    text: Seq<char>,
    array: Seq<char>,
    from: int,
) -> bool {
    &&& rows.len() == (if item_count(text, array) > from {
        item_count(text, array) - from
    } else {
        0
    })
    &&& forall|i: int|
        0 <= i < rows.len() ==> {
            &&& (#[trigger] rows[i]).id@ == string_field(text, array, from + i, "/id"@)
            &&& rows[i].content@ == string_field(text, array, from + i, "/content"@)
            &&& rows[i].similarity@ == similarity_field(text, array, from + i)
        }
}

/// The rows at a place of a reply from a position on. A malformed item gives a row with empty cells.
fn rows_from(text: &str, array: &str, from: usize) -> (r: Vec<ResultRow>)
    ensures
        are_rows_from(r@, text@, array@, from as int),
{
    let n = count_items(text, array);
    let mut rows: Vec<ResultRow> = Vec::new();
    let mut i: usize = from;
    while i < n
        invariant
            from <= i,
            n <= i ==> i == from || i == n,
            n == item_count(text@, array@),
            rows@.len() == i - from,
            forall|k: int|
                0 <= k < rows@.len() ==> {
                    &&& (#[trigger] rows@[k]).id@ == string_field(text@, array@, from + k, "/id"@)
                    &&& rows@[k].content@ == string_field(text@, array@, from + k, "/content"@)
                    &&& rows@[k].similarity@ == similarity_field(text@, array@, from + k)
                },
        decreases n - i,
    {
        let row = ResultRow {
            id: string_field_text(text, array, i, "/id"),
            content: string_field_text(text, array, i, "/content"),
            similarity: similarity_field_text(text, array, i),
        };
        rows.push(row);
        i = i + 1;
    }
    rows
}

/// Whether these are the rows at a place of a reply.
pub open spec fn are_rows(rows: Seq<ResultRow>, text: Seq<char>, array: Seq<char>) -> bool {
    are_rows_from(rows, text, array, 0)
}

/// The rows at a place of a reply.
pub fn result_rows(text: &str, array: &str) -> (r: Vec<ResultRow>)
    ensures
        are_rows(r@, text@, array@),
{
    rows_from(text, array, 0)
}

/// The contents at a place of a reply.
pub open spec fn are_contents(contents: Seq<String>, text: Seq<char>, array: Seq<char>) -> bool {
    &&& contents.len() == item_count(text, array)
    &&& forall|i: int|
        0 <= i < contents.len() ==> (#[trigger] contents[i])@ == string_field(
            text,
            array,
            i,
            "/content"@,
        )
}

fn contents_at(text: &str, array: &str) -> (r: Vec<String>)
    ensures
        are_contents(r@, text@, array@),
{
    let n = count_items(text, array);
    let mut contents: Vec<String> = Vec::new();
    let mut i: usize = 0;
    while i < n
        invariant
            i <= n,
            n == item_count(text@, array@),
            contents@.len() == i,
            forall|k: int|
                0 <= k < i ==> (#[trigger] contents@[k])@ == string_field(
                    text@,
                    array@,
                    k,
                    "/content"@,
                ),
        decreases n - i,
    {
        let c = string_field_text(text, array, i, "/content");
        contents.push(c);
        i = i + 1;
    }
    contents
}

/// Whether a section shows a cluster of a reply.
pub open spec fn is_section(s: RecallCluster, text: Seq<char>, i: int) -> bool {
    &&& s.id@ == string_field(text, "/clusters"@, i, "/cluster_id"@)
    &&& s.similarity@ == similarity_field(text, "/clusters"@, i)
    &&& are_contents(
        s.contents@,
        text,
        field_place("/clusters"@, i, "/representative_memories"@),
    )
}

/// Whether these are the clusters of a reply.
pub open spec fn are_sections(sections: Seq<RecallCluster>, text: Seq<char>) -> bool {
    &&& sections.len() == item_count(text, "/clusters"@)
    &&& forall|i: int| 0 <= i < sections.len() ==> is_section(#[trigger] sections[i], text, i)
}

/// The clusters of a reply.
pub fn sections(text: &str) -> (r: Vec<RecallCluster>)
    ensures
        are_sections(r@, text@),
{
    let n = count_items(text, "/clusters");
    let mut found: Vec<RecallCluster> = Vec::new();
    let mut i: usize = 0;
    while i < n
        invariant
            i <= n,
            n == item_count(text@, "/clusters"@),
            found@.len() == i,
            forall|k: int| 0 <= k < i ==> is_section(#[trigger] found@[k], text@, k),
        decreases n - i,
    {
        let place = field_place_text("/clusters", i, "/representative_memories");
        let s = RecallCluster {
            id: string_field_text(text, "/clusters", i, "/cluster_id"),
            similarity: similarity_field_text(text, "/clusters", i),
            contents: contents_at(text, place.as_str()),
        };
        found.push(s);
        i = i + 1;
    }
    found
}

impl Fragment {
    /// The answer with a failure.
    pub fn error(message: String) -> (r: Fragment)
        ensures
            r == (Fragment::Error { message }),
    {
        Fragment::Error { message }
    }

    /// The answer with an empty state.
    pub fn notice(text: &str) -> (r: Fragment)
        ensures
            r matches Fragment::Notice { message } && message@ == text@,
    {
        Fragment::Notice { message: copy_of(text) }
    }

    /// A table of rows, or a notice where there are none.
    pub fn table(rows: Vec<ResultRow>, heading: Option<&'static str>, empty: &str) -> (r: Fragment)
        ensures
            if rows@.len() == 0 {
                r matches Fragment::Notice { message } && message@ == empty@
            } else {
                r == (Fragment::Table { heading, rows })
            },
    {
        if rows.len() == 0 {
            Fragment::notice(empty)
        } else {
            Fragment::Table { heading, rows }
        }
    }

    /// The sections of a broad recall, or a notice where there are none.
    pub fn clusters(sections: Vec<RecallCluster>) -> (r: Fragment)
        ensures
            if sections@.len() == 0 {
                r matches Fragment::Notice { message } && message@ == "No clusters found."@
            } else {
                r == (Fragment::Clusters { sections })
            },
    {
        if sections.len() == 0 {
            Fragment::notice("No clusters found.")
        } else {
            Fragment::Clusters { sections }
        }
    }

    /// The answer to a retrieval, whose reply lists its results.
    pub fn retrieve(reply: &str) -> (r: Fragment)
        ensures
            if item_count(reply@, "/results"@) == 0 {
                r matches Fragment::Notice { message } && message@ == "No results."@
            } else {
                r matches Fragment::Table { heading, rows } && heading is None && are_rows(
                    rows@,
                    reply@,
                    "/results"@,
                )
            },
    {
        Fragment::table(result_rows(reply, "/results"), None, "No results.")
    }

    /// The answer to a recall. A reply that does not say it is focused is a broad one.
    pub fn recall(reply: &str) -> (r: Fragment)
        ensures
            match crate::json::json_fault(reply@) {
                Some(e) => r matches Fragment::Error { message } && message@
                    == "Failed to parse recall response: "@ + e,
                None => if crate::json::json_string(reply@, "/mode"@) == Some("focused"@) {
                    if item_count(reply@, "/memories"@) == 0 {
                        r matches Fragment::Notice { message } && message@
                            == "No memories in this scope."@
                    } else {
                        r matches Fragment::Table { heading, rows } && heading
                            matches Some(h) && h@ == "Focused recall"@ && are_rows(
                            rows@,
                            reply@,
                            "/memories"@,
                        )
                    }
                } else {
                    if item_count(reply@, "/clusters"@) == 0 {
                        r matches Fragment::Notice { message } && message@ == "No clusters found."@
                    } else {
                        r matches Fragment::Clusters { sections } && are_sections(sections@, reply@)
                    }
                },
            },
    {
        match read_fault(reply) {
            Some(e) => {
                let mut message = copy_of("Failed to parse recall response: ");
                message.append(e.as_str());
                return Fragment::Error { message };
            },
            None => {},
        }
        let focused = match read_string(reply, "/mode") {
            Some(mode) => same(mode.as_str(), "focused"),
            None => false,
        };
        if focused {
            Fragment::table(
                result_rows(reply, "/memories"),
                Some("Focused recall"),
                "No memories in this scope.",
            )
        } else {
            Fragment::clusters(sections(reply))
        }
    }
}

// ---------------------------------------------------------------------------
// Rendering
// ---------------------------------------------------------------------------
impl ResultRow {
    /// The row as text.
    pub open spec fn html(self) -> Seq<char> {
        "<tr><td>"@ + crate::debug::html::record_link("/debug/memories/"@, self.id@) + "</td>"@
            + crate::debug::html::cell(self.content@) + crate::debug::html::cell(self.similarity@)
            + "</tr>\n"@
    }

    fn render(&self) -> (r: String)
        ensures
            r@ == self.html(),
    {
        let mut r = copy_of("<tr><td>");
        let l = record_link_html("/debug/memories/", self.id.as_str());
        r.append(l.as_str());
        r.append("</td>");
        let c = cell_html(self.content.as_str());
        r.append(c.as_str());
        let s = cell_html(self.similarity.as_str());
        r.append(s.as_str());
        r.append("</tr>\n");
        r
    }
}

/// Rows, one after the other.
pub open spec fn rows_html(rows: Seq<ResultRow>) -> Seq<char>
    decreases rows.len(),
{
    if rows.len() == 0 {
        seq![]
    } else {
        rows_html(rows.drop_last()) + rows.last().html()
    }
}

/// Items of a list, one after the other.
pub open spec fn items_html(items: Seq<Seq<char>>) -> Seq<char>
    decreases items.len(),
{
    if items.len() == 0 {
        seq![]
    } else {
        items_html(items.drop_last()) + "<li>"@ + crate::debug::html::escape(items.last())
            + "</li>"@
    }
}

impl RecallCluster {
    /// The section as text.
    pub open spec fn html(self) -> Seq<char> {
        "<h4>"@ + crate::debug::html::record_link("/debug/clusters/"@, self.id@) + " ("@
            + crate::debug::html::escape(self.similarity@) + ")</h4><ul>"@ + items_html(
            crate::text::texts(self.contents@),
        ) + "</ul>"@
    }

    fn render(&self) -> (r: String)
        ensures
            r@ == self.html(),
    {
        let ghost all = crate::text::texts(self.contents@);
        let mut items = String::new();
        let mut i: usize = 0;
        assert(all.take(0) =~= seq![]);
        while i < self.contents.len()
            invariant
                i <= self.contents@.len(),
                all == crate::text::texts(self.contents@),
                items@ == items_html(all.take(i as int)),
            decreases self.contents@.len() - i,
        {
            assert(all.take(i + 1).drop_last() =~= all.take(i as int));
            assert(all.take(i + 1).last() == self.contents@[i as int]@);
            items.append("<li>");
            let e = escaped(self.contents[i].as_str());
            items.append(e.as_str());
            items.append("</li>");
            i = i + 1;
        }
        assert(all.take(all.len() as int) =~= all);
        let mut r = copy_of("<h4>");
        let l = record_link_html("/debug/clusters/", self.id.as_str());
        r.append(l.as_str());
        r.append(" (");
        let s = escaped(self.similarity.as_str());
        r.append(s.as_str());
        r.append(")</h4><ul>");
        r.append(items.as_str());
        r.append("</ul>");
        r
    }
}

/// Sections, one after the other.
pub open spec fn sections_html(sections: Seq<RecallCluster>) -> Seq<char>
    decreases sections.len(),
{
    if sections.len() == 0 {
        seq![]
    } else {
        sections_html(sections.drop_last()) + sections.last().html()
    }
}

fn render_rows(rows: &Vec<ResultRow>) -> (r: String)
    ensures
        r@ == rows_html(rows@),
{
    let mut r = String::new();
    let mut i: usize = 0;
    while i < rows.len()
        invariant
            i <= rows@.len(),
            r@ == rows_html(rows@.take(i as int)),
        decreases rows@.len() - i,
    {
        assert(rows@.take(i + 1).drop_last() =~= rows@.take(i as int));
        let row = rows[i].render();
        r.append(row.as_str());
        i = i + 1;
    }
    assert(rows@.take(rows@.len() as int) =~= rows@);
    r
}

fn render_sections(all: &Vec<RecallCluster>) -> (r: String)
    ensures
        r@ == sections_html(all@),
{
    let mut r = String::new();
    let mut i: usize = 0;
    while i < all.len()
        invariant
            i <= all@.len(),
            r@ == sections_html(all@.take(i as int)),
        decreases all@.len() - i,
    {
        assert(all@.take(i + 1).drop_last() =~= all@.take(i as int));
        let s = all[i].render();
        r.append(s.as_str());
        i = i + 1;
    }
    assert(all@.take(all@.len() as int) =~= all@);
    r
}

impl Fragment {
    /// The fragment as text: a part of a page, without the layout.
    pub open spec fn html(self) -> Seq<char> {
        match self {
            Fragment::Error { message } => "<p class=\"error\">"@ + crate::debug::html::escape(
                message@,
            ) + "</p>"@,
            Fragment::Notice { message } => "<p>"@ + crate::debug::html::escape(message@) + "</p>"@,
            Fragment::Table { heading, rows } => (match heading {
                Some(h) => "<h3>"@ + h@ + "</h3>"@,
                None => ""@,
            }) + "<table><tr><th>ID</th><th>Content</th><th>Similarity</th></tr>\n"@ + rows_html(
                rows@,
            ) + "</table>"@,
            Fragment::Clusters { sections } => "<h3>Broad recall</h3>"@ + sections_html(sections@),
        }
    }

    /// Renders the fragment.
    pub fn render(&self) -> (r: String)
        ensures
            r@ == self.html(),
    {
        match self {
            Fragment::Error { message } => {
                let mut r = copy_of("<p class=\"error\">");
                let m = escaped(message.as_str());
                r.append(m.as_str());
                r.append("</p>");
                r
            },
            Fragment::Notice { message } => {
                let mut r = copy_of("<p>");
                let m = escaped(message.as_str());
                r.append(m.as_str());
                r.append("</p>");
                r
            },
            Fragment::Table { heading, rows } => {
                let mut r = match heading {
                    Some(h) => {
                        let mut t = copy_of("<h3>");
                        t.append(h);
                        t.append("</h3>");
                        t
                    },
                    None => copy_of(""),
                };
                r.append("<table><tr><th>ID</th><th>Content</th><th>Similarity</th></tr>\n");
                let t = render_rows(rows);
                r.append(t.as_str());
                r.append("</table>");
                r
            },
            Fragment::Clusters { sections } => {
                let mut r = copy_of("<h3>Broad recall</h3>");
                let s = render_sections(sections);
                r.append(s.as_str());
                r
            },
        }
    }
}

// ---------------------------------------------------------------------------
// What a retrieval did
// ---------------------------------------------------------------------------
/// The scores from which on a similarity means something to the running server, written out.
#[derive(Debug)]
pub struct ScoreBands {
    /// From here on a memory joins a cluster.
    pub join: String,
    /// From here on the members of a cluster hold together.
    pub cohesion: String,
    /// From here on a retrieval keeps a result.
    pub floor: String,
}

impl ScoreBands {
    /// The legend by which a score is read.
    pub open spec fn html(self) -> Seq<char> {
        "<p>Reading a score:</p><ul class=\"legend\"><li>"@ + crate::debug::html::escape(self.join@)
            + " and above: close enough to join a cluster</li><li>"@ + crate::debug::html::escape(
            self.cohesion@,
        ) + " and above: as close as a cluster that holds together</li><li>"@
            + crate::debug::html::escape(self.floor@) + " and above: kept by the floor</li><li>below "@
            + crate::debug::html::escape(self.floor@) + ": dropped by the floor</li></ul>"@
    }

    /// Renders the legend.
    pub fn render(&self) -> (r: String)
        ensures
            r@ == self.html(),
    {
        let mut r = copy_of("<p>Reading a score:</p><ul class=\"legend\"><li>");
        let j = escaped(self.join.as_str());
        r.append(j.as_str());
        r.append(" and above: close enough to join a cluster</li><li>");
        let c = escaped(self.cohesion.as_str());
        r.append(c.as_str());
        r.append(" and above: as close as a cluster that holds together</li><li>");
        let f = escaped(self.floor.as_str());
        r.append(f.as_str());
        r.append(" and above: kept by the floor</li><li>below ");
        r.append(f.as_str());
        r.append(": dropped by the floor</li></ul>");
        r
    }
}

/// What a retrieval did beside its results: the bands by which its scores are read, what the floor
/// dropped, and from which results heat spread.
#[derive(Debug)]
pub struct RunNote {
    pub bands: ScoreBands,
    pub dropped: Vec<ResultRow>,
    pub dry_run: bool,
    pub activated: Vec<String>,
}

/// What a retrieval did. The floor keeps the first `kept` of the results in `unfiltered`, the reply of
/// the same retrieval without the floor; what it dropped are the others.
pub fn note(
    bands: &ScoreBands,
    kept: usize,
    unfiltered: &str,
    dry_run: bool,
    activated: &Vec<String>,
) -> (r: RunNote)
    ensures
        r.bands.join@ == bands.join@,
        r.bands.cohesion@ == bands.cohesion@,
        r.bands.floor@ == bands.floor@,
        are_rows_from(r.dropped@, unfiltered@, "/results"@, kept as int),
        r.dry_run == dry_run,
        crate::text::texts(r.activated@) == crate::text::texts(activated@),
{
    RunNote {
        bands: ScoreBands {
            join: copy_of(bands.join.as_str()),
            cohesion: copy_of(bands.cohesion.as_str()),
            floor: copy_of(bands.floor.as_str()),
        },
        dropped: rows_from(unfiltered, "/results", kept),
        dry_run,
        activated: copy_texts(activated),
    }
}

/// Dropped rows as items of a list.
pub open spec fn dropped_html(rows: Seq<ResultRow>) -> Seq<char>
    decreases rows.len(),
{
    if rows.len() == 0 {
        seq![]
    } else {
        dropped_html(rows.drop_last()) + "<li>"@ + crate::debug::html::record_link(
            "/debug/memories/"@,
            rows.last().id@,
        ) + " ("@ + crate::debug::html::escape(rows.last().similarity@) + ")</li>"@
    }
}

fn render_dropped(rows: &Vec<ResultRow>) -> (r: String)
    ensures
        r@ == dropped_html(rows@),
{
    let mut r = String::new();
    let mut i: usize = 0;
    while i < rows.len()
        invariant
            i <= rows@.len(),
            r@ == dropped_html(rows@.take(i as int)),
        decreases rows@.len() - i,
    {
        assert(rows@.take(i + 1).drop_last() =~= rows@.take(i as int));
        r.append("<li>");
        let l = record_link_html("/debug/memories/", rows[i].id.as_str());
        r.append(l.as_str());
        r.append(" (");
        let s = escaped(rows[i].similarity.as_str());
        r.append(s.as_str());
        r.append(")</li>");
        i = i + 1;
    }
    assert(rows@.take(rows@.len() as int) =~= rows@);
    r
}

impl RunNote {
    /// The note as text.
    pub open spec fn html(self) -> Seq<char> {
        "<p>Floor: min_similarity = "@ + crate::debug::html::escape(self.bands.floor@)
            + "</p>"@ + (if self.dropped@.len() == 0 {
            ""@
        } else {
            "<p>Dropped by the floor:</p><ul>"@ + dropped_html(self.dropped@) + "</ul>"@
        }) + (if self.dry_run {
            "<p>Dry run: spreading activation did not fire.</p>"@
        } else {
            "<p>Spreading activation fired on the top "@ + crate::numbers::decimal(
                self.activated@.len(),
            ) + ": "@ + crate::debug::html::badges(crate::text::texts(self.activated@)) + "</p>"@
        }) + self.bands.html()
    }

    /// Renders the note.
    pub fn render(&self) -> (r: String)
        ensures
            r@ == self.html(),
    {
        let mut r = copy_of("<p>Floor: min_similarity = ");
        let f = escaped(self.bands.floor.as_str());
        r.append(f.as_str());
        r.append("</p>");
        let list = if self.dropped.len() == 0 {
            copy_of("")
        } else {
            let mut l = copy_of("<p>Dropped by the floor:</p><ul>");
            let d = render_dropped(&self.dropped);
            l.append(d.as_str());
            l.append("</ul>");
            l
        };
        r.append(list.as_str());
        let heat = if self.dry_run {
            copy_of("<p>Dry run: spreading activation did not fire.</p>")
        } else {
            let mut h = copy_of("<p>Spreading activation fired on the top ");
            let n = size_text(self.activated.len());
            h.append(n.as_str());
            h.append(": ");
            let b = badges_html(&self.activated);
            h.append(b.as_str());
            h.append("</p>");
            h
        };
        r.append(heat.as_str());
        let legend = self.bands.render();
        r.append(legend.as_str());
        r
    }
}

} // verus!
