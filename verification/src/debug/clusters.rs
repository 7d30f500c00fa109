//! The clusters: their list, and one with its members.
use vstd::prelude::*;

use crate::clusters::{is_too_loose, MIN_SPLIT_MEMBERS};
use crate::debug::html::{cell_html, escaped, layout_html, record_link_html};
use crate::numbers::{signed_text, size_text};
use crate::text::{copy_of, take_chars};

verus! {

/// Characters of a member's content that are shown.
pub const PREVIEW_CHARS: usize = 120;

/// The verdict on a cluster, in the words of every page that shows it.
#[derive(Clone, Copy, Debug, PartialEq, Eq, Structural)]
pub enum Cohesion {
    Healthy,
    NeedsSplit,
    /// Too few members to consider a split at all.
    TooSmall,
    /// Without a record there is no centroid to compare against.
    NoCentroid,
}

impl Cohesion {
    /// The verdict in words.
    pub open spec fn says(self) -> Seq<char> {
        match self {
            Cohesion::Healthy => "Healthy"@,
            Cohesion::NeedsSplit => "Needs split (below cohesion floor)"@,
            Cohesion::TooSmall => "N/A (fewer than 4 members)"@,
            Cohesion::NoCentroid => "N/A (no cluster record)"@,
        }
    }

    /// The verdict in words.
    pub fn label(self) -> (r: &'static str)
        ensures
            r@ == self.says(),
    {
        match self {
            Cohesion::Healthy => "Healthy",
            Cohesion::NeedsSplit => "Needs split (below cohesion floor)",
            Cohesion::TooSmall => "N/A (fewer than 4 members)",
            Cohesion::NoCentroid => "N/A (no cluster record)",
        }
    }
}

/// The verdict on a cluster with a record: the one that maintenance acts on.
pub open spec fn verdict(members: int, average: i64, cohesion_floor: i64) -> Cohesion {
    if members < MIN_SPLIT_MEMBERS {
        Cohesion::TooSmall
    } else if crate::clusters::too_loose(members, average, cohesion_floor) {
        Cohesion::NeedsSplit
    } else {
        Cohesion::Healthy
    }
}

/// Cohesion of one cluster, judged from its stored centroid: `average` is the score of its members'
/// average similarity to it, and nothing where the cluster has no record.
pub fn cohesion_of(members: usize, average: Option<i64>, cohesion_floor: i64) -> (r: Cohesion)
    ensures
        r == (match average {
            None => Cohesion::NoCentroid,
            Some(a) => verdict(members as int, a, cohesion_floor),
        }),
{
    match average {
        None => Cohesion::NoCentroid,
        Some(a) => if members < MIN_SPLIT_MEMBERS {
            Cohesion::TooSmall
        } else if is_too_loose(members, a, cohesion_floor) {
            Cohesion::NeedsSplit
        } else {
            Cohesion::Healthy
        },
    }
}

/// A page reports a split exactly where maintenance would make one.
pub proof fn the_page_reports_what_maintenance_does(members: int, average: i64, floor: i64)
    ensures
        verdict(members, average, floor) == Cohesion::NeedsSplit <==> crate::clusters::too_loose(
            members,
            average,
            floor,
        ),
{
}

/// A stored cluster.
#[derive(Debug)]
pub struct ClusterRecord {
    pub id: Option<String>,
    pub label: Option<String>,
    pub members: usize,
    pub depth: i64,
    /// Score of its members' average similarity to the centroid; not looked at where it has too few.
    pub average: i64,
}

/// A cluster as the list shows it.
#[derive(Debug)]
pub struct ClusterRow {
    pub id: String,
    pub label: String,
    pub members: usize,
    pub depth: i64,
    pub cohesion: &'static str,
}

/// The list of clusters.
#[derive(Debug)]
pub struct ClustersTemplate {
    pub nav: &'static str,
    pub clusters: Vec<ClusterRow>,
    pub total: usize,
}

/// A member as the detail page shows it.
#[derive(Debug)]
pub struct MemberRow {
    pub id: String,
    pub preview: String,
}

/// The page of one cluster.
#[derive(Debug)]
pub struct ClusterDetailTemplate {
    pub nav: &'static str,
    pub id: String,
    pub cohesion: String,
    pub members: Vec<MemberRow>,
    pub member_count: usize,
}

/// A member of a cluster.
#[derive(Debug)]
pub struct Member {
    pub id: Option<String>,
    pub content: String,
}

/// An optional ID, empty where there is none.
pub open spec fn id_or_empty(id: Option<String>) -> Seq<char> {
    match id {
        Some(s) => s@,
        None => ""@,
    }
}

/// An optional ID, empty where there is none.
pub fn id_text(id: &Option<String>) -> (r: String)
    ensures
        r@ == id_or_empty(*id),
{
    match id {
        Some(s) => copy_of(s.as_str()),
        None => copy_of(""),
    }
}

/// Whether a row shows a cluster.
pub open spec fn shows_cluster(row: ClusterRow, c: ClusterRecord, cohesion_floor: i64) -> bool {
    &&& row.id@ == id_or_empty(c.id)
    &&& row.label@ == (match c.label {
        Some(l) => l@,
        None => "(unlabeled)"@,
    })
    &&& row.members == c.members
    &&& row.depth == c.depth
    &&& row.cohesion@ == verdict(c.members as int, c.average, cohesion_floor).says()
}

/// The list of clusters.
pub fn list(clusters: &Vec<ClusterRecord>, cohesion_floor: i64) -> (r: ClustersTemplate)
    ensures
        r.nav@ == "clusters"@,
        r.total == clusters@.len(),
        r.clusters@.len() == clusters@.len(),
        forall|i: int|
            0 <= i < clusters@.len() ==> shows_cluster(
                #[trigger] r.clusters@[i],
                clusters@[i],
                cohesion_floor,
            ),
{
    let mut rows: Vec<ClusterRow> = Vec::new();
    let mut i: usize = 0;
    while i < clusters.len()
        invariant
            i <= clusters@.len(),
            rows@.len() == i,
            forall|k: int|
                0 <= k < i ==> shows_cluster(#[trigger] rows@[k], clusters@[k], cohesion_floor),
        decreases clusters@.len() - i,
    {
        let c = &clusters[i];
        let label = match &c.label {
            Some(l) => copy_of(l.as_str()),
            None => copy_of("(unlabeled)"),
        };
        let row = ClusterRow {
            id: id_text(&c.id),
            label,
            members: c.members,
            depth: c.depth,
            cohesion: cohesion_of(c.members, Some(c.average), cohesion_floor).label(),
        };
        rows.push(row);
        i = i + 1;
    }
    ClustersTemplate { nav: "clusters", clusters: rows, total: clusters.len() }
}

/// How many clusters there are of each verdict.
#[derive(Clone, Copy, Debug, PartialEq, Eq, Structural)]
pub struct ClusterHealth {
    pub healthy: usize,
    pub needs_split: usize,
    pub too_small: usize,
}

/// How many clusters have a verdict.
pub open spec fn with_verdict(clusters: Seq<ClusterRecord>, floor: i64, v: Cohesion) -> int
    decreases clusters.len(),
{
    if clusters.len() == 0 {
        0
    } else {
        with_verdict(clusters.drop_last(), floor, v) + if verdict(
            clusters.last().members as int,
            clusters.last().average,
            floor,
        ) == v {
            1int
        } else {
            0
        }
    }
}

/// Every cluster with a record is counted under exactly one verdict.
pub proof fn every_cluster_is_counted_once(clusters: Seq<ClusterRecord>, floor: i64)
    ensures
        with_verdict(clusters, floor, Cohesion::Healthy) + with_verdict(
            clusters,
            floor,
            Cohesion::NeedsSplit,
        ) + with_verdict(clusters, floor, Cohesion::TooSmall) == clusters.len(),
        with_verdict(clusters, floor, Cohesion::Healthy) >= 0,
        with_verdict(clusters, floor, Cohesion::NeedsSplit) >= 0,
        with_verdict(clusters, floor, Cohesion::TooSmall) >= 0,
    decreases clusters.len(),
{
    if clusters.len() > 0 {
        every_cluster_is_counted_once(clusters.drop_last(), floor);
    }
}

/// Counts the clusters of each verdict.
pub fn cluster_health(clusters: &Vec<ClusterRecord>, cohesion_floor: i64) -> (r: ClusterHealth)
    ensures
        r.healthy == with_verdict(clusters@, cohesion_floor, Cohesion::Healthy),
        r.needs_split == with_verdict(clusters@, cohesion_floor, Cohesion::NeedsSplit),
        r.too_small == with_verdict(clusters@, cohesion_floor, Cohesion::TooSmall),
{
    let n = clusters.len();
    let mut healthy: usize = 0;
    let mut needs_split: usize = 0;
    let mut too_small: usize = 0;
    let mut i: usize = 0;
    while i < n
        invariant
            i <= n,
            n == clusters@.len(),
            healthy == with_verdict(clusters@.take(i as int), cohesion_floor, Cohesion::Healthy),
            needs_split == with_verdict(
                clusters@.take(i as int),
                cohesion_floor,
                Cohesion::NeedsSplit,
            ),
            too_small == with_verdict(clusters@.take(i as int), cohesion_floor, Cohesion::TooSmall),
        decreases n - i,
    {
        proof {
            every_cluster_is_counted_once(clusters@.take(i as int), cohesion_floor);
            assert(clusters@.take(i + 1).drop_last() =~= clusters@.take(i as int));
        }
        match cohesion_of(clusters[i].members, Some(clusters[i].average), cohesion_floor) {
            Cohesion::Healthy => {
                healthy = healthy + 1;
            },
            Cohesion::NeedsSplit => {
                needs_split = needs_split + 1;
            },
            Cohesion::TooSmall => {
                too_small = too_small + 1;
            },
            Cohesion::NoCentroid => {},
        }
        i = i + 1;
    }
    assert(clusters@.take(n as int) =~= clusters@);
    ClusterHealth { healthy, needs_split, too_small }
}

/// Whether a row shows a member: its ID and the start of its content.
pub open spec fn shows_member(row: MemberRow, m: Member) -> bool {
    &&& row.id@ == id_or_empty(m.id)
    &&& row.preview@ == crate::text::first_chars(m.content@, PREVIEW_CHARS as nat)
}

/// The page of one cluster. Members can outlive the record of their cluster; no verdict is guessed
/// for them.
pub fn detail(id: &str, average: Option<i64>, members: &Vec<Member>, cohesion_floor: i64) -> (r:
    ClusterDetailTemplate)
    ensures
        r.nav@ == "clusters"@,
        r.id@ == id@,
        r.cohesion@ == (match average {
            None => Cohesion::NoCentroid,
            Some(a) => verdict(members@.len() as int, a, cohesion_floor),
        }).says(),
        r.member_count == members@.len(),
        r.members@.len() == members@.len(),
        forall|i: int|
            0 <= i < members@.len() ==> shows_member(#[trigger] r.members@[i], members@[i]),
{
    let mut rows: Vec<MemberRow> = Vec::new();
    let mut i: usize = 0;
    while i < members.len()
        invariant
            i <= members@.len(),
            rows@.len() == i,
            forall|k: int| 0 <= k < i ==> shows_member(#[trigger] rows@[k], members@[k]),
        decreases members@.len() - i,
    {
        let m = &members[i];
        let row = MemberRow {
            id: id_text(&m.id),
            preview: take_chars(m.content.as_str(), PREVIEW_CHARS),
        };
        rows.push(row);
        i = i + 1;
    }
    let cohesion = cohesion_of(members.len(), average, cohesion_floor);
    ClusterDetailTemplate {
        nav: "clusters",
        id: copy_of(id),
        cohesion: copy_of(cohesion.label()),
        members: rows,
        member_count: members.len(),
    }
}

// ---------------------------------------------------------------------------
// Rendering
// ---------------------------------------------------------------------------
impl ClusterRow {
    /// The row as text.
    pub open spec fn html(self) -> Seq<char> {
        "<tr><td>"@ + crate::debug::html::record_link("/debug/clusters/"@, self.id@) + "</td>"@
            + crate::debug::html::cell(self.label@) + crate::debug::html::cell(
            crate::numbers::decimal(self.members as nat),
        ) + crate::debug::html::cell(crate::numbers::signed_decimal(self.depth as int))
            + crate::debug::html::cell(self.cohesion@) + "</tr>"@
    }

    fn render(&self) -> (r: String)
        ensures
            r@ == self.html(),
    {
        let mut r = copy_of("<tr><td>");
        let l = record_link_html("/debug/clusters/", self.id.as_str());
        r.append(l.as_str());
        r.append("</td>");
        let a = cell_html(self.label.as_str());
        r.append(a.as_str());
        let n = size_text(self.members);
        let b = cell_html(n.as_str());
        r.append(b.as_str());
        let d = signed_text(self.depth);
        let c = cell_html(d.as_str());
        r.append(c.as_str());
        let h = cell_html(self.cohesion);
        r.append(h.as_str());
        r.append("</tr>");
        r
    }
}

/// Rows, one after the other.
pub open spec fn cluster_rows(rows: Seq<ClusterRow>) -> Seq<char>
    decreases rows.len(),
{
    if rows.len() == 0 {
        seq![]
    } else {
        cluster_rows(rows.drop_last()) + rows.last().html()
    }
}

impl ClustersTemplate {
    /// The page as text.
    pub open spec fn html(self) -> Seq<char> {
        crate::debug::html::layout(
            self.nav@,
            "<h1>Clusters</h1><p>"@ + crate::numbers::decimal(self.total as nat)
                + " clusters</p><table><tr><th>ID</th><th>Label</th><th>Members</th><th>Depth</th><th>Cohesion</th></tr>"@
                + (if self.clusters@.len() == 0 {
                "<tr><td colspan=\"5\" class=\"empty\">No clusters.</td></tr>"@
            } else {
                cluster_rows(self.clusters@)
            }) + "</table>"@,
        )
    }

    /// Renders the page.
    pub fn render(&self) -> (r: String)
        ensures
            r@ == self.html(),
    {
        let mut body = copy_of("<h1>Clusters</h1><p>");
        let n = size_text(self.total);
        body.append(n.as_str());
        body.append(
            " clusters</p><table><tr><th>ID</th><th>Label</th><th>Members</th><th>Depth</th><th>Cohesion</th></tr>",
        );
        if self.clusters.len() == 0 {
            body.append("<tr><td colspan=\"5\" class=\"empty\">No clusters.</td></tr>");
        } else {
            let mut rows = String::new();
            let mut i: usize = 0;
            while i < self.clusters.len()
                invariant
                    i <= self.clusters@.len(),
                    rows@ == cluster_rows(self.clusters@.take(i as int)),
                decreases self.clusters@.len() - i,
            {
                assert(self.clusters@.take(i + 1).drop_last() =~= self.clusters@.take(i as int));
                let row = self.clusters[i].render();
                rows.append(row.as_str());
                i = i + 1;
            }
            assert(self.clusters@.take(self.clusters@.len() as int) =~= self.clusters@);
            body.append(rows.as_str());
        }
        body.append("</table>");
        layout_html(self.nav, body.as_str())
    }
}

impl MemberRow {
    /// The row as text.
    pub open spec fn html(self) -> Seq<char> {
        "<tr><td>"@ + crate::debug::html::record_link("/debug/memories/"@, self.id@) + "</td>"@
            + crate::debug::html::cell(self.preview@) + "</tr>"@
    }

    fn render(&self) -> (r: String)
        ensures
            r@ == self.html(),
    {
        let mut r = copy_of("<tr><td>");
        let l = record_link_html("/debug/memories/", self.id.as_str());
        r.append(l.as_str());
        r.append("</td>");
        let a = cell_html(self.preview.as_str());
        r.append(a.as_str());
        r.append("</tr>");
        r
    }
}

/// Rows, one after the other.
pub open spec fn member_rows(rows: Seq<MemberRow>) -> Seq<char>
    decreases rows.len(),
{
    if rows.len() == 0 {
        seq![]
    } else {
        member_rows(rows.drop_last()) + rows.last().html()
    }
}

impl ClusterDetailTemplate {
    /// The page as text: the table keeps its header when it is empty.
    pub open spec fn html(self) -> Seq<char> {
        crate::debug::html::layout(
            self.nav@,
            "<p><a class=\"link\" href=\"/debug/clusters\">← Back to clusters</a></p><h1>Cluster: "@
                + crate::debug::html::escape(self.id@) + "</h1><p>Cohesion: "@
                + crate::debug::html::escape(self.cohesion@) + "</p><p>"@ + crate::numbers::decimal(
                self.member_count as nat,
            ) + " members</p><table><tr><th>ID</th><th>Content</th></tr>"@ + (if self.members@.len()
                == 0 {
                "<tr><td colspan=\"2\" class=\"empty\">No members in this cluster.</td></tr>"@
            } else {
                member_rows(self.members@)
            }) + "</table>"@,
        )
    }

    /// Renders the page.
    pub fn render(&self) -> (r: String)
        ensures
            r@ == self.html(),
    {
        let mut body = copy_of(
            "<p><a class=\"link\" href=\"/debug/clusters\">← Back to clusters</a></p><h1>Cluster: ",
        );
        let id = escaped(self.id.as_str());
        body.append(id.as_str());
        body.append("</h1><p>Cohesion: ");
        let c = escaped(self.cohesion.as_str());
        body.append(c.as_str());
        body.append("</p><p>");
        let n = size_text(self.member_count);
        body.append(n.as_str());
        body.append(" members</p><table><tr><th>ID</th><th>Content</th></tr>");
        if self.members.len() == 0 {
            body.append("<tr><td colspan=\"2\" class=\"empty\">No members in this cluster.</td></tr>");
        } else {
            let mut rows = String::new();
            let mut i: usize = 0;
            while i < self.members.len()
                invariant
                    i <= self.members@.len(),
                    rows@ == member_rows(self.members@.take(i as int)),
                decreases self.members@.len() - i,
            {
                assert(self.members@.take(i + 1).drop_last() =~= self.members@.take(i as int));
                let row = self.members[i].render();
                rows.append(row.as_str());
                i = i + 1;
            }
            assert(self.members@.take(self.members@.len() as int) =~= self.members@);
            body.append(rows.as_str());
        }
        body.append("</table>");
        layout_html(self.nav, body.as_str())
    }
}

} // verus!
