//! The sessions: their list, and one with its memories.
use vstd::prelude::*;

use crate::debug::clusters::id_text;
use crate::debug::html::{
    badge_html, badges_html, cell_html, escaped, format_dt, layout_html, record_link_html,
    text_or_absent,
};
use crate::debug::paging::{foot_html, read_number, showing_text};
use crate::numbers::size_text;
use crate::text::{copy_of, copy_opt, copy_texts, take_chars};
use crate::time::Instant;

verus! {

/// Sessions per page unless the request says otherwise.
pub const DEFAULT_LIMIT: usize = 50;

/// Characters of a memory that the page of its session shows.
pub const PREVIEW_CHARS: usize = 120;

/// The address of a page of the list.
pub open spec fn address(limit: int, offset: int) -> Seq<char> {
    "/debug/sessions?limit="@ + crate::numbers::decimal(limit as nat) + "&offset="@
        + crate::numbers::decimal(offset as nat)
}

/// The address of a page of the list.
pub fn sessions_url(limit: usize, offset: usize) -> (r: String)
    ensures
        r@ == address(limit as int, offset as int),
{
    let mut r = copy_of("/debug/sessions?limit=");
    let l = size_text(limit);
    r.append(l.as_str());
    r.append("&offset=");
    let o = size_text(offset);
    r.append(o.as_str());
    r
}

/// A session as the list shows it.
#[derive(Debug)]
pub struct SessionRow {
    pub external_id: String,
    pub agent: String,
    pub model: String,
    pub memory_count: usize,
    pub started: String,
    pub last_activity: String,
    pub finalized: bool,
}

/// The list of sessions.
#[derive(Debug)]
pub struct SessionsTemplate {
    pub nav: &'static str,
    pub rows: Vec<SessionRow>,
    pub prev_href: String,
    pub next_href: String,
    pub summary: String,
}

/// A stored session.
#[derive(Debug)]
pub struct SessionRecord {
    pub external_id: String,
    pub agent_id: Option<String>,
    pub model: Option<String>,
    pub memory_count: usize,
    pub started_at: Option<Instant>,
    pub ended_at: Option<Instant>,
    pub summary: Option<String>,
    pub tags: Vec<String>,
}

/// A page of the list that is asked for.
#[derive(Clone, Copy, Debug)]
pub struct Page {
    pub limit: usize,
    pub offset: usize,
}

/// The raw parameters read. No value is refused: a typo gives the default.
pub fn read_params(limit: &Option<String>, offset: &Option<String>) -> (r: Page)
    ensures
        r.limit == crate::debug::paging::number_or(crate::text::opt_text(*limit), DEFAULT_LIMIT),
        limit is None ==> r.limit == 50,
        r.offset == crate::debug::paging::number_or(crate::text::opt_text(*offset), 0),
{
    Page { limit: read_number(limit, DEFAULT_LIMIT), offset: read_number(offset, 0) }
}

/// Whether a row shows a session. It is finalized exactly if it has a summary: a live session has a
/// last activity too.
pub open spec fn shows_session(row: SessionRow, s: SessionRecord) -> bool {
    &&& row.external_id@ == s.external_id@
    &&& row.agent@ == crate::debug::html::or_absent(crate::text::opt_text(s.agent_id))
    &&& row.model@ == crate::debug::html::or_absent(crate::text::opt_text(s.model))
    &&& row.memory_count == s.memory_count
    &&& row.started@ == crate::debug::html::dt_text(s.started_at)
    &&& row.last_activity@ == crate::debug::html::dt_text(s.ended_at)
    &&& row.finalized == (s.summary is Some)
}

/// How many sessions are finalized, and how many are not.
#[derive(Clone, Copy, Debug, PartialEq, Eq, Structural)]
pub struct SessionRollup {
    pub finalized: usize,
    pub idle: usize,
}

/// How many sessions have a summary.
pub open spec fn finalized_count(sessions: Seq<SessionRecord>) -> int
    decreases sessions.len(),
{
    if sessions.len() == 0 {
        0
    } else {
        finalized_count(sessions.drop_last()) + if sessions.last().summary is Some {
            1int
        } else {
            0
        }
    }
}

/// Counts the finalized sessions and the others.
pub fn session_rollup(sessions: &Vec<SessionRecord>) -> (r: SessionRollup)
    ensures
        r.finalized == finalized_count(sessions@),
        r.finalized + r.idle == sessions@.len(),
{
    let n = sessions.len();
    let mut finalized: usize = 0;
    let mut i: usize = 0;
    while i < n
        invariant
            finalized <= i <= n,
            n == sessions@.len(),
            finalized == finalized_count(sessions@.take(i as int)),
        decreases n - i,
    {
        assert(sessions@.take(i + 1).drop_last() =~= sessions@.take(i as int));
        if sessions[i].summary.is_some() {
            finalized = finalized + 1;
        }
        i = i + 1;
    }
    assert(sessions@.take(n as int) =~= sessions@);
    SessionRollup { finalized, idle: n - finalized }
}

/// An address, empty where there is no such page.
pub open spec fn page_at(limit: int, offset: Option<int>) -> Seq<char> {
    match offset {
        Some(o) => address(limit, o),
        None => ""@,
    }
}

/// The list of sessions, given a page of them and how many there are in all. Where they could not be
/// counted, those of the page are all that is known of.
pub fn list(page: Page, sessions: &Vec<SessionRecord>, counted: Option<usize>) -> (r:
    SessionsTemplate)
    requires
        page.offset + sessions@.len() <= usize::MAX,
        (counted is Some && page.offset + sessions@.len() < counted->0) ==> page.offset + page.limit
            <= usize::MAX,
    ensures
        ({
            let total = match counted {
                Some(n) => n as int,
                None => sessions@.len() as int,
            };
            &&& r.nav@ == "sessions"@
            &&& r.rows@.len() == sessions@.len()
            &&& forall|i: int|
                0 <= i < sessions@.len() ==> shows_session(#[trigger] r.rows@[i], sessions@[i])
            &&& r.summary@ == crate::debug::paging::showing(
                page.offset as int,
                sessions@.len() as int,
                total,
                "sessions"@,
            )
            &&& r.prev_href@ == page_at(
                page.limit as int,
                crate::debug::paging::prev_offset(page.offset as int, page.limit as int),
            )
            &&& r.next_href@ == page_at(
                page.limit as int,
                crate::debug::paging::next_offset(
                    page.offset as int,
                    page.limit as int,
                    sessions@.len() as int,
                    total,
                ),
            )
        }),
{
    let total: usize = match counted {
        Some(n) => n,
        None => sessions.len(),
    };
    let mut rows: Vec<SessionRow> = Vec::new();
    let mut i: usize = 0;
    while i < sessions.len()
        invariant
            i <= sessions@.len(),
            rows@.len() == i,
            forall|k: int| 0 <= k < i ==> shows_session(#[trigger] rows@[k], sessions@[k]),
        decreases sessions@.len() - i,
    {
        let s = &sessions[i];
        let row = SessionRow {
            external_id: copy_of(s.external_id.as_str()),
            agent: text_or_absent(&s.agent_id),
            model: text_or_absent(&s.model),
            memory_count: s.memory_count,
            started: format_dt(s.started_at),
            last_activity: format_dt(s.ended_at),
            finalized: s.summary.is_some(),
        };
        rows.push(row);
        i = i + 1;
    }
    let prev_href = if page.offset > 0 {
        let o: usize = if page.offset > page.limit {
            page.offset - page.limit
        } else {
            0
        };
        sessions_url(page.limit, o)
    } else {
        copy_of("")
    };
    let next_href = if page.offset + sessions.len() < total {
        sessions_url(page.limit, page.offset + page.limit)
    } else {
        copy_of("")
    };
    SessionsTemplate {
        nav: "sessions",
        rows,
        prev_href,
        next_href,
        summary: showing_text(page.offset, sessions.len(), total, "sessions"),
    }
}

/// A memory as the page of its session shows it.
#[derive(Debug)]
pub struct MemoryRow {
    pub id: String,
    pub preview: String,
    pub created: String,
}

/// The page of one session.
#[derive(Debug)]
pub struct SessionDetailTemplate {
    pub nav: &'static str,
    pub external_id: String,
    pub agent: String,
    pub model: String,
    pub started: String,
    pub last_activity: String,
    pub finalized: bool,
    pub summary: Option<String>,
    pub tags: Vec<String>,
    pub memories: Vec<MemoryRow>,
}

/// A memory of a session.
#[derive(Debug)]
pub struct AttachedFact {
    pub id: Option<String>,
    pub content: String,
    pub created_at: Option<Instant>,
}

/// Whether a row shows a memory.
pub open spec fn shows_attached(row: MemoryRow, f: AttachedFact) -> bool {
    &&& row.id@ == crate::debug::clusters::id_or_empty(f.id)
    &&& row.preview@ == crate::text::first_chars(f.content@, PREVIEW_CHARS as nat)
    &&& row.created@ == crate::debug::html::dt_text(f.created_at)
}

/// The page of one session.
pub fn detail(external_id: &str, session: &SessionRecord, memories: &Vec<AttachedFact>) -> (r:
    SessionDetailTemplate)
    ensures
        r.nav@ == "sessions"@,
        r.external_id@ == external_id@,
        r.agent@ == crate::debug::html::or_absent(crate::text::opt_text(session.agent_id)),
        r.model@ == crate::debug::html::or_absent(crate::text::opt_text(session.model)),
        r.started@ == crate::debug::html::dt_text(session.started_at),
        r.last_activity@ == crate::debug::html::dt_text(session.ended_at),
        r.finalized == (session.summary is Some),
        crate::text::opt_text(r.summary) == crate::text::opt_text(session.summary),
        crate::text::texts(r.tags@) == crate::text::texts(session.tags@),
        r.memories@.len() == memories@.len(),
        forall|i: int|
            0 <= i < memories@.len() ==> shows_attached(#[trigger] r.memories@[i], memories@[i]),
{
    let mut rows: Vec<MemoryRow> = Vec::new();
    let mut i: usize = 0;
    while i < memories.len()
        invariant
            i <= memories@.len(),
            rows@.len() == i,
            forall|k: int| 0 <= k < i ==> shows_attached(#[trigger] rows@[k], memories@[k]),
        decreases memories@.len() - i,
    {
        let f = &memories[i];
        let row = MemoryRow {
            id: id_text(&f.id),
            preview: take_chars(f.content.as_str(), PREVIEW_CHARS),
            created: format_dt(f.created_at),
        };
        rows.push(row);
        i = i + 1;
    }
    SessionDetailTemplate {
        nav: "sessions",
        external_id: copy_of(external_id),
        agent: text_or_absent(&session.agent_id),
        model: text_or_absent(&session.model),
        started: format_dt(session.started_at),
        last_activity: format_dt(session.ended_at),
        finalized: session.summary.is_some(),
        summary: copy_opt(&session.summary),
        tags: copy_texts(&session.tags),
        memories: rows,
    }
}

// ---------------------------------------------------------------------------
// Rendering
// ---------------------------------------------------------------------------
/// The word for the state of a session.
pub open spec fn state_word(finalized: bool) -> Seq<char> {
    if finalized {
        "finalized"@
    } else {
        "active"@
    }
}

fn state_text(finalized: bool) -> (r: &'static str)
    ensures
        r@ == state_word(finalized),
{
    if finalized {
        "finalized"
    } else {
        "active"
    }
}

impl SessionRow {
    /// The row as text.
    pub open spec fn html(self) -> Seq<char> {
        "<tr><td>"@ + crate::debug::html::record_link("/debug/sessions/"@, self.external_id@)
            + "</td>"@ + crate::debug::html::cell(self.agent@) + crate::debug::html::cell(self.model@)
            + crate::debug::html::cell(crate::numbers::decimal(self.memory_count as nat))
            + crate::debug::html::cell(self.started@) + crate::debug::html::cell(self.last_activity@)
            + "<td>"@ + crate::debug::html::badge(state_word(self.finalized)) + "</td></tr>"@
    }

    fn render(&self) -> (r: String)
        ensures
            r@ == self.html(),
    {
        let mut r = copy_of("<tr><td>");
        let l = record_link_html("/debug/sessions/", self.external_id.as_str());
        r.append(l.as_str());
        r.append("</td>");
        let a = cell_html(self.agent.as_str());
        r.append(a.as_str());
        let m = cell_html(self.model.as_str());
        r.append(m.as_str());
        let n = size_text(self.memory_count);
        let c = cell_html(n.as_str());
        r.append(c.as_str());
        let s = cell_html(self.started.as_str());
        r.append(s.as_str());
        let e = cell_html(self.last_activity.as_str());
        r.append(e.as_str());
        r.append("<td>");
        let b = badge_html(state_text(self.finalized));
        r.append(b.as_str());
        r.append("</td></tr>");
        r
    }
}

/// Rows, one after the other.
pub open spec fn session_rows(rows: Seq<SessionRow>) -> Seq<char>
    decreases rows.len(),
{
    if rows.len() == 0 {
        seq![]
    } else {
        session_rows(rows.drop_last()) + rows.last().html()
    }
}

impl SessionsTemplate {
    /// The page as text.
    pub open spec fn html(self) -> Seq<char> {
        crate::debug::html::layout(
            self.nav@,
            "<h1>Sessions</h1><table><tr><th>ID</th><th>Agent</th><th>Model</th><th>Memories</th><th>Started</th><th>Last activity</th><th>State</th></tr>"@
                + (if self.rows@.len() == 0 {
                "<tr><td colspan=\"7\" class=\"empty\">No sessions.</td></tr>"@
            } else {
                session_rows(self.rows@)
            }) + "</table>"@ + crate::debug::paging::foot(
                self.prev_href@,
                self.next_href@,
                self.summary@,
            ),
        )
    }

    /// Renders the page.
    pub fn render(&self) -> (r: String)
        ensures
            r@ == self.html(),
    {
        let mut body = copy_of(
            "<h1>Sessions</h1><table><tr><th>ID</th><th>Agent</th><th>Model</th><th>Memories</th><th>Started</th><th>Last activity</th><th>State</th></tr>",
        );
        if self.rows.len() == 0 {
            body.append("<tr><td colspan=\"7\" class=\"empty\">No sessions.</td></tr>");
        } else {
            let mut rows = String::new();
            let mut i: usize = 0;
            while i < self.rows.len()
                invariant
                    i <= self.rows@.len(),
                    rows@ == session_rows(self.rows@.take(i as int)),
                decreases self.rows@.len() - i,
            {
                assert(self.rows@.take(i + 1).drop_last() =~= self.rows@.take(i as int));
                let row = self.rows[i].render();
                rows.append(row.as_str());
                i = i + 1;
            }
            assert(self.rows@.take(self.rows@.len() as int) =~= self.rows@);
            body.append(rows.as_str());
        }
        body.append("</table>");
        let f = foot_html(
            self.prev_href.as_str(),
            self.next_href.as_str(),
            self.summary.as_str(),
        );
        body.append(f.as_str());
        layout_html(self.nav, body.as_str())
    }
}

impl MemoryRow {
    /// The row as text.
    pub open spec fn html(self) -> Seq<char> {
        "<tr><td>"@ + crate::debug::html::record_link("/debug/memories/"@, self.id@) + "</td>"@
            + crate::debug::html::cell(self.preview@) + crate::debug::html::cell(self.created@)
            + "</tr>"@
    }

    fn render(&self) -> (r: String)
        ensures
            r@ == self.html(),
    {
        let mut r = copy_of("<tr><td>");
        let l = record_link_html("/debug/memories/", self.id.as_str());
        r.append(l.as_str());
        r.append("</td>");
        let p = cell_html(self.preview.as_str());
        r.append(p.as_str());
        let c = cell_html(self.created.as_str());
        r.append(c.as_str());
        r.append("</tr>");
        r
    }
}

/// Rows, one after the other.
pub open spec fn attached_rows(rows: Seq<MemoryRow>) -> Seq<char>
    decreases rows.len(),
{
    if rows.len() == 0 {
        seq![]
    } else {
        attached_rows(rows.drop_last()) + rows.last().html()
    }
}

impl SessionDetailTemplate {
    /// The page as text. A session without a summary or without memories says so.
    pub open spec fn html(self) -> Seq<char> {
        crate::debug::html::layout(
            self.nav@,
            "<p><a class=\"link\" href=\"/debug/sessions\">← Back to sessions</a></p><h1>Session: "@
                + crate::debug::html::escape(self.external_id@) + " "@ + crate::debug::html::badge(
                state_word(self.finalized),
            ) + "</h1><p>Agent: "@ + crate::debug::html::escape(self.agent@) + "</p><p>Model: "@
                + crate::debug::html::escape(self.model@) + "</p><p>Started: "@
                + crate::debug::html::escape(self.started@) + "</p><p>Last activity: "@
                + crate::debug::html::escape(self.last_activity@) + "</p><p>Tags: "@
                + crate::debug::html::badges(crate::text::texts(self.tags@))
                + "</p><h2>Summary</h2>"@ + (match self.summary {
                Some(s) => "<pre class=\"content-block\">"@ + crate::debug::html::escape(s@)
                    + "</pre>"@,
                None => "<p>Not finalized</p>"@,
            }) + "<h2>Memories</h2><table><tr><th>ID</th><th>Content</th><th>Created</th></tr>"@ + (
            if self.memories@.len() == 0 {
                "<tr><td colspan=\"3\" class=\"empty\">No memories</td></tr>"@
            } else {
                attached_rows(self.memories@)
            }) + "</table>"@,
        )
    }

    /// Renders the page.
    pub fn render(&self) -> (r: String)
        ensures
            r@ == self.html(),
    {
        let mut body = copy_of(
            "<p><a class=\"link\" href=\"/debug/sessions\">← Back to sessions</a></p><h1>Session: ",
        );
        let id = escaped(self.external_id.as_str());
        body.append(id.as_str());
        body.append(" ");
        let state = badge_html(state_text(self.finalized));
        body.append(state.as_str());
        body.append("</h1><p>Agent: ");
        let agent = escaped(self.agent.as_str());
        body.append(agent.as_str());
        body.append("</p><p>Model: ");
        let model = escaped(self.model.as_str());
        body.append(model.as_str());
        body.append("</p><p>Started: ");
        let started = escaped(self.started.as_str());
        body.append(started.as_str());
        body.append("</p><p>Last activity: ");
        let last = escaped(self.last_activity.as_str());
        body.append(last.as_str());
        body.append("</p><p>Tags: ");
        let tags = badges_html(&self.tags);
        body.append(tags.as_str());
        body.append("</p><h2>Summary</h2>");
        let summary = match &self.summary {
            Some(s) => {
                let mut p = copy_of("<pre class=\"content-block\">");
                let e = escaped(s.as_str());
                p.append(e.as_str());
                p.append("</pre>");
                p
            },
            None => copy_of("<p>Not finalized</p>"),
        };
        body.append(summary.as_str());
        body.append("<h2>Memories</h2><table><tr><th>ID</th><th>Content</th><th>Created</th></tr>");
        let memories = if self.memories.len() == 0 {
            copy_of("<tr><td colspan=\"3\" class=\"empty\">No memories</td></tr>")
        } else {
            let mut rows = String::new();
            let mut i: usize = 0;
            while i < self.memories.len()
                invariant
                    i <= self.memories@.len(),
                    rows@ == attached_rows(self.memories@.take(i as int)),
                decreases self.memories@.len() - i,
            {
                assert(self.memories@.take(i + 1).drop_last() =~= self.memories@.take(i as int));
                let row = self.memories[i].render();
                rows.append(row.as_str());
                i = i + 1;
            }
            assert(self.memories@.take(self.memories@.len() as int) =~= self.memories@);
            rows
        };
        body.append(memories.as_str());
        body.append("</table>");
        layout_html(self.nav, body.as_str())
    }
}

} // verus!
