//! The maintenance log.
use vstd::prelude::*;

use crate::debug::html::{
    badge_html, cell_html, format_dt, layout_html, pager_html, record_link_html,
};
use crate::numbers::{signed_text, size_text};
use crate::text::{copy_of, copy_texts};
use crate::time::Instant;

verus! {

/// The page that is asked for.
#[derive(Debug)]
pub struct Pagination {
    pub page: Option<usize>,
}

/// Entries per page.
pub const PAGE_SIZE: usize = 50;

/// An entry of the log.
#[derive(Debug)]
pub struct MaintenanceLog {
    pub action: String,
    pub source_id: String,
    pub target_ids: Vec<String>,
    pub members_moved: i64,
    pub created_at: Option<Instant>,
}

/// An entry as it is shown.
#[derive(Debug)]
pub struct MaintenanceRow {
    pub action: String,
    pub source_id: String,
    pub targets: Vec<String>,
    pub members_moved: i64,
    pub timestamp: String,
}

/// The page of the log.
#[derive(Debug)]
pub struct MaintenanceTemplate {
    pub nav: &'static str,
    pub logs: Vec<MaintenanceRow>,
    pub prev_href: String,
    pub next_href: String,
    pub summary: String,
    pub total_pages: usize,
    pub total: usize,
}

/// The number of the page that is asked for, from one on.
pub open spec fn page_number(p: Pagination) -> int {
    match p.page {
        Some(n) => if n < 1 {
            1
        } else {
            n as int
        },
        None => 1,
    }
}

/// How many pages hold `total` entries.
pub open spec fn pages_for(total: int) -> int {
    (total + PAGE_SIZE - 1) / (PAGE_SIZE as int)
}

/// The address of a page of the log.
pub open spec fn page_href(page: int) -> Seq<char> {
    "/debug/maintenance?page="@ + crate::numbers::decimal(page as nat)
}

/// Where the page that is asked for starts in the log.
pub fn page_offset(params: &Pagination) -> (r: usize)
    requires
        (page_number(*params) - 1) * PAGE_SIZE <= usize::MAX,
    ensures
        r == (page_number(*params) - 1) * PAGE_SIZE,
{
    let page: usize = match params.page {
        Some(n) => if n < 1 {
            1
        } else {
            n
        },
        None => 1,
    };
    (page - 1) * PAGE_SIZE
}

fn page_href_text(page: usize) -> (r: String)
    ensures
        r@ == page_href(page as int),
{
    let mut r = copy_of("/debug/maintenance?page=");
    let n = size_text(page);
    r.append(n.as_str());
    r
}

/// Whether a row shows an entry; a missing time shows as on every page.
pub open spec fn shows_log(row: MaintenanceRow, log: MaintenanceLog) -> bool {
    &&& row.action@ == log.action@
    &&& row.source_id@ == log.source_id@
    &&& crate::text::texts(row.targets@) == crate::text::texts(log.target_ids@)
    &&& row.members_moved == log.members_moved
    &&& row.timestamp@ == crate::debug::html::dt_text(log.created_at)
}

/// The page of the log, given its entries and how many there are in all.
pub fn list(params: &Pagination, logs: &Vec<MaintenanceLog>, total: usize) -> (r:
    MaintenanceTemplate)
    ensures
        r.nav@ == "maintenance"@,
        r.logs@.len() == logs@.len(),
        forall|i: int| 0 <= i < logs@.len() ==> shows_log(#[trigger] r.logs@[i], logs@[i]),
        r.total == total,
        r.total_pages == pages_for(total as int),
        r.prev_href@ == (if page_number(*params) > 1 {
            page_href(page_number(*params) - 1)
        } else {
            ""@
        }),
        r.next_href@ == (if page_number(*params) < pages_for(total as int) {
            page_href(page_number(*params) + 1)
        } else {
            ""@
        }),
        r.summary@ == "Page "@ + crate::numbers::decimal(page_number(*params) as nat) + " of "@
            + crate::numbers::decimal(pages_for(total as int) as nat) + " ("@
            + crate::numbers::decimal(total as nat) + " entries)"@,
{
    let page: usize = match params.page {
        Some(n) => if n < 1 {
            1
        } else {
            n
        },
        None => 1,
    };
    let mut rows: Vec<MaintenanceRow> = Vec::new();
    let mut i: usize = 0;
    while i < logs.len()
        invariant
            i <= logs@.len(),
            rows@.len() == i,
            forall|k: int| 0 <= k < i ==> shows_log(#[trigger] rows@[k], logs@[k]),
        decreases logs@.len() - i,
    {
        let log = &logs[i];
        let row = MaintenanceRow {
            action: copy_of(log.action.as_str()),
            source_id: copy_of(log.source_id.as_str()),
            targets: copy_texts(&log.target_ids),
            members_moved: log.members_moved,
            timestamp: format_dt(log.created_at),
        };
        rows.push(row);
        i = i + 1;
    }
    let total_pages: usize = total / PAGE_SIZE + if total % PAGE_SIZE > 0 {
        1
    } else {
        0
    };
    let prev_href = if page > 1 {
        page_href_text(page - 1)
    } else {
        copy_of("")
    };
    let next_href = if page < total_pages {
        page_href_text(page + 1)
    } else {
        copy_of("")
    };
    let mut summary = copy_of("Page ");
    let a = size_text(page);
    summary.append(a.as_str());
    summary.append(" of ");
    let b = size_text(total_pages);
    summary.append(b.as_str());
    summary.append(" (");
    let c = size_text(total);
    summary.append(c.as_str());
    summary.append(" entries)");
    MaintenanceTemplate {
        nav: "maintenance",
        logs: rows,
        prev_href,
        next_href,
        summary,
        total_pages,
        total,
    }
}

/// Links to clusters, one after the other.
pub open spec fn target_links(ids: Seq<Seq<char>>) -> Seq<char>
    decreases ids.len(),
{
    if ids.len() == 0 {
        seq![]
    } else {
        target_links(ids.drop_last()) + crate::debug::html::record_link(
            "/debug/clusters/"@,
            ids.last(),
        ) + " "@
    }
}

fn target_links_html(ids: &Vec<String>) -> (r: String)
    ensures
        r@ == target_links(crate::text::texts(ids@)),
{
    let ghost all = crate::text::texts(ids@);
    let mut r = String::new();
    let mut i: usize = 0;
    assert(all.take(0) =~= seq![]);
    while i < ids.len()
        invariant
            i <= ids@.len(),
            all == crate::text::texts(ids@),
            r@ == target_links(all.take(i as int)),
        decreases ids@.len() - i,
    {
        let l = record_link_html("/debug/clusters/", ids[i].as_str());
        assert(all.take(i + 1).drop_last() =~= all.take(i as int));
        assert(all.take(i + 1).last() == ids@[i as int]@);
        r.append(l.as_str());
        r.append(" ");
        i = i + 1;
    }
    assert(all.take(all.len() as int) =~= all);
    r
}

impl MaintenanceRow {
    /// The row as text.
    pub open spec fn html(self) -> Seq<char> {
        "<tr><td>"@ + crate::debug::html::badge(self.action@) + "</td><td>"@
            + crate::debug::html::record_link("/debug/clusters/"@, self.source_id@) + "</td><td>"@
            + target_links(crate::text::texts(self.targets@)) + "</td>"@ + crate::debug::html::cell(
            crate::numbers::signed_decimal(self.members_moved as int),
        ) + crate::debug::html::cell(self.timestamp@) + "</tr>"@
    }

    fn render(&self) -> (r: String)
        ensures
            r@ == self.html(),
    {
        let mut r = copy_of("<tr><td>");
        let a = badge_html(self.action.as_str());
        r.append(a.as_str());
        r.append("</td><td>");
        let s = record_link_html("/debug/clusters/", self.source_id.as_str());
        r.append(s.as_str());
        r.append("</td><td>");
        let t = target_links_html(&self.targets);
        r.append(t.as_str());
        r.append("</td>");
        let n = signed_text(self.members_moved);
        let m = cell_html(n.as_str());
        r.append(m.as_str());
        let d = cell_html(self.timestamp.as_str());
        r.append(d.as_str());
        r.append("</tr>");
        r
    }
}

/// Rows, one after the other.
pub open spec fn rows_html(rows: Seq<MaintenanceRow>) -> Seq<char>
    decreases rows.len(),
{
    if rows.len() == 0 {
        seq![]
    } else {
        rows_html(rows.drop_last()) + rows.last().html()
    }
}

impl MaintenanceTemplate {
    /// The page as text: the table keeps its header when it is empty.
    pub open spec fn html(self) -> Seq<char> {
        crate::debug::html::layout(
            self.nav@,
            "<h1>Maintenance Log</h1><table><tr><th>Action</th><th>Source</th><th>Targets</th><th>Members moved</th><th>Time</th></tr>"@
                + (if self.logs@.len() == 0 {
                "<tr><td colspan=\"5\" class=\"empty\">No maintenance entries.</td></tr>"@
            } else {
                rows_html(self.logs@)
            }) + "</table>"@ + (if self.total_pages > 1 {
                crate::debug::html::pager(self.prev_href@, self.next_href@, self.summary@)
            } else {
                "<p>"@ + crate::numbers::decimal(self.total as nat) + " entries</p>"@
            }),
        )
    }

    /// Renders the page.
    pub fn render(&self) -> (r: String)
        ensures
            r@ == self.html(),
    {
        let mut body = copy_of(
            "<h1>Maintenance Log</h1><table><tr><th>Action</th><th>Source</th><th>Targets</th><th>Members moved</th><th>Time</th></tr>",
        );
        if self.logs.len() == 0 {
            body.append("<tr><td colspan=\"5\" class=\"empty\">No maintenance entries.</td></tr>");
        } else {
            let mut rows = String::new();
            let mut i: usize = 0;
            while i < self.logs.len()
                invariant
                    i <= self.logs@.len(),
                    rows@ == rows_html(self.logs@.take(i as int)),
                decreases self.logs@.len() - i,
            {
                assert(self.logs@.take(i + 1).drop_last() =~= self.logs@.take(i as int));
                let row = self.logs[i].render();
                rows.append(row.as_str());
                i = i + 1;
            }
            assert(self.logs@.take(self.logs@.len() as int) =~= self.logs@);
            body.append(rows.as_str());
        }
        body.append("</table>");
        let foot = if self.total_pages > 1 {
            pager_html(self.prev_href.as_str(), self.next_href.as_str(), self.summary.as_str())
        } else {
            let mut p = copy_of("<p>");
            let n = size_text(self.total);
            p.append(n.as_str());
            p.append(" entries</p>");
            p
        };
        body.append(foot.as_str());
        layout_html(self.nav, body.as_str())
    }
}

} // verus!
