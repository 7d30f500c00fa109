//! What the lists of the pages are for: each stored row shown, under the filter and order asked for.
use vstd::prelude::*;

use crate::debug::clusters::{
    cluster_rows, member_rows, shows_cluster, shows_member, verdict, with_verdict, ClusterRecord,
    ClusterRow, Cohesion, Member, MemberRow,
};
use crate::debug::graph::preview;
use crate::debug::maintenance::{page_number, pages_for, shows_log, MaintenanceLog, MaintenanceRow, Pagination};
use crate::debug::html::query_value;
use crate::debug::memories::{
    address, dir_of, edge_rows, filter_of, header_listing, memory_rows, shows_fact, sort_of, EdgeView,
    FactRecord, FactSort, Listing, MemoryRow, SortDir,
};
use crate::debug::query::{
    dropped_html, items_html, rows_html, scope_of, sections_html, RecallCluster, ResultRow,
};
use crate::debug::sessions::{
    attached_rows, finalized_count, session_rows, shows_session, SessionRecord, SessionRow,
};
use crate::debug::memories::{
    shows_cluster_of, shows_edge, shows_heat, ClusterOfFact, ClusterView, EdgeRecord, HeatRecord,
    HeatView,
};
use crate::debug::query::{are_rows, are_rows_from, are_sections, item_count};
use crate::debug::sessions::{shows_attached, AttachedFact};
use crate::json::{json_items, json_string};
use crate::numbers::decimal;
use crate::text::{first_chars, texts};

verus! {

/// A preview is the start of its text: all of it where it fits, and otherwise as many characters as fit,
/// with a mark behind them.
pub proof fn a_preview_is_the_start_of_its_text(s: Seq<char>, n: nat) -> (rest: Seq<char>)
    ensures
        s.len() <= n ==> preview(s, n) == s && first_chars(s, n) == s,
        s.len() > n ==> first_chars(s, n).len() == n && s == first_chars(s, n) + rest && preview(s, n)
            == first_chars(s, n) + "…"@,
{
    if s.len() > n {
        assert(s.take(n as int) + s.skip(n as int) =~= s);
    }
    s.skip(n as int)
}

/// Each column has a key of its own, and what is no key sorts by age; only `asc` turns the order round.
pub proof fn a_list_is_sorted_by_the_column_named(raw: Seq<char>)
    ensures
        sort_of(Some("confidence"@)) == FactSort::Confidence,
        sort_of(Some("content"@)) == FactSort::Content,
        sort_of(Some("id"@)) == FactSort::Id,
        sort_of(Some("tags"@)) == FactSort::TagCount,
        sort_of(None) == FactSort::CreatedAt,
        sort_of(Some(raw)) == FactSort::Confidence ==> raw == "confidence"@,
        sort_of(Some(raw)) == FactSort::Content ==> raw == "content"@,
        sort_of(Some(raw)) == FactSort::Id ==> raw == "id"@,
        sort_of(Some(raw)) == FactSort::TagCount ==> raw == "tags"@,
        dir_of(None) == SortDir::Desc,
        dir_of(Some(raw)) == SortDir::Asc <==> raw == "asc"@,
{
    reveal_strlit("confidence");
    reveal_strlit("content");
    reveal_strlit("id");
    reveal_strlit("tags");
    assert("content"@[0] != "tags"@[0]);
    assert("id"@.len() != "tags"@.len());
    assert("confidence"@.len() != "content"@.len());
    assert("confidence"@.len() != "id"@.len());
    assert("confidence"@.len() != "tags"@.len());
    assert("content"@.len() != "id"@.len());
    assert("content"@.len() != "tags"@.len());
}

/// A filter that says nothing filters nothing: an empty one in the list, a blank session in a query.
/// Any other is taken as it is.
pub proof fn an_empty_filter_is_none(s: Seq<char>)
    ensures
        filter_of(None) is None,
        filter_of(Some(s)) == (if s.len() == 0 {
            None
        } else {
            Some(s)
        }),
        scope_of(None) is None,
        scope_of(Some(s)) == (if crate::text::trim(s).len() == 0 {
            None
        } else {
            Some(s)
        }),
{
    crate::laws::text::trimming_takes_off_white_space_only(s);
}

/// The header of another column sorts by it, descending; that of the active one turns the order round.
/// Neither touches the filter.
pub proof fn a_header_sorts_by_its_column(l: Listing, column: FactSort)
    ensures
        header_listing(l, column).sort == column,
        header_listing(l, column).search == l.search,
        header_listing(l, column).tag == l.tag,
        header_listing(l, column).include_deleted == l.include_deleted,
        column != l.sort ==> header_listing(l, column).dir == SortDir::Desc,
        column == l.sort ==> header_listing(l, column).dir != l.dir,
{
}

/// A row of the memories shows what is stored, its content up to 120 characters.
pub proof fn a_row_shows_its_memory(row: MemoryRow, f: FactRecord)
    requires
        shows_fact(row, f),
    ensures
        f.id matches Some(id) ==> row.id@ == id@,
        row.preview@ == preview(f.content@, 120),
        texts(row.tags@) == texts(f.tags@),
        row.confidence@ == f.confidence@,
        row.deleted == f.deleted,
        f.created_at is None ==> row.created@ == "—"@,
        f.created_at matches Some(t) ==> row.created@ == crate::time::minute_text(t),
{
}

/// A row of the sessions shows what is stored; a session is finalized exactly if it has a summary.
pub proof fn a_row_shows_its_session(row: SessionRow, s: SessionRecord)
    requires
        shows_session(row, s),
    ensures
        row.external_id@ == s.external_id@,
        row.finalized <==> s.summary is Some,
        row.memory_count == s.memory_count,
        s.agent_id matches Some(a) ==> row.agent@ == a@,
        s.agent_id is None ==> row.agent@ == "—"@,
        s.model matches Some(m) ==> row.model@ == m@,
        s.model is None ==> row.model@ == "—"@,
        s.started_at matches Some(t) ==> row.started@ == crate::time::minute_text(t),
        s.ended_at matches Some(t) ==> row.last_activity@ == crate::time::minute_text(t),
{
}

/// As many sessions are finalized as have a summary.
pub proof fn finalized_sessions_have_a_summary(sessions: Seq<SessionRecord>)
    ensures
        finalized_count(sessions) == sessions.filter(|s: SessionRecord| s.summary is Some).len(),
    decreases sessions.len(),
{
    reveal(Seq::filter);
    if sessions.len() > 0 {
        finalized_sessions_have_a_summary(sessions.drop_last());
    }
}

/// Below four members no split is considered. From there on a cluster is healthy exactly if its average
/// similarity reaches the floor.
pub proof fn a_cluster_is_judged_by_its_average(members: int, average: i64, floor: i64)
    ensures
        verdict(members, average, floor) == Cohesion::TooSmall <==> members < 4,
        verdict(members, average, floor) == Cohesion::Healthy <==> members >= 4
            && crate::ranking::reaches(average, floor),
        verdict(members, average, floor) == Cohesion::NeedsSplit <==> members >= 4
            && !crate::ranking::reaches(average, floor),
{
}

/// A row of the clusters shows what is stored, and the verdict on it.
pub proof fn a_row_shows_its_cluster(row: ClusterRow, c: ClusterRecord, floor: i64)
    requires
        shows_cluster(row, c, floor),
    ensures
        c.id matches Some(id) ==> row.id@ == id@,
        c.label matches Some(l) ==> row.label@ == l@,
        c.label is None ==> row.label@ == "(unlabeled)"@,
        row.members == c.members,
        row.depth == c.depth,
        c.members < 4 ==> row.cohesion@ == "N/A (fewer than 4 members)"@,
        c.members >= 4 && crate::ranking::reaches(c.average, floor) ==> row.cohesion@ == "Healthy"@,
        c.members >= 4 && !crate::ranking::reaches(c.average, floor) ==> row.cohesion@
            == "Needs split (below cohesion floor)"@,
{
}

/// A row of the members shows the ID and the first 120 characters.
pub proof fn a_row_shows_its_member(row: MemberRow, m: Member)
    requires
        shows_member(row, m),
    ensures
        m.id matches Some(id) ==> row.id@ == id@,
        row.preview@ == first_chars(m.content@, 120),
{
}

/// As many clusters are counted under a verdict as have it.
pub proof fn a_verdict_counts_the_clusters_that_have_it(
    clusters: Seq<ClusterRecord>,
    floor: i64,
    v: Cohesion,
)
    ensures
        with_verdict(clusters, floor, v) == clusters.filter(
            |c: ClusterRecord| verdict(c.members as int, c.average, floor) == v,
        ).len(),
    decreases clusters.len(),
{
    reveal(Seq::filter);
    if clusters.len() > 0 {
        a_verdict_counts_the_clusters_that_have_it(clusters.drop_last(), floor, v);
    }
}

/// The log has as many pages of fifty as hold every entry and no more. The page asked for is the one
/// shown, and the first one where none or an impossible one is asked for.
pub proof fn the_log_has_pages_of_fifty(p: Pagination, total: int)
    requires
        total >= 0,
    ensures
        (pages_for(total) - 1) * 50 < total || total == 0,
        total <= pages_for(total) * 50,
        pages_for(0) == 0,
        p.page is None ==> page_number(p) == 1,
        p.page matches Some(n) ==> (n >= 1 ==> page_number(p) == n) && (n == 0 ==> page_number(p)
            == 1),
{
}

/// A row of the log shows what is stored.
pub proof fn a_row_shows_its_entry(row: MaintenanceRow, log: MaintenanceLog)
    requires
        shows_log(row, log),
    ensures
        row.action@ == log.action@,
        row.source_id@ == log.source_id@,
        texts(row.targets@) == texts(log.target_ids@),
        row.members_moved == log.members_moved,
        log.created_at matches Some(t) ==> row.timestamp@ == crate::time::minute_text(t),
        log.created_at is None ==> row.timestamp@ == "—"@,
{
}

/// A row of a session's memories shows the ID, the first 120 characters and the time.
pub proof fn a_row_shows_its_attached_memory(
    row: crate::debug::sessions::MemoryRow,
    f: AttachedFact,
)
    requires
        shows_attached(row, f),
    ensures
        f.id matches Some(id) ==> row.id@ == id@,
        row.preview@ == first_chars(f.content@, 120),
        f.created_at matches Some(t) ==> row.created@ == crate::time::minute_text(t),
        f.created_at is None ==> row.created@ == "—"@,
{
}

/// The page of a memory shows each edge with its ends the right way round, the heat and the cluster, and
/// neither of the two where the memory has none.
pub proof fn a_page_shows_what_belongs_to_its_memory(
    edge: EdgeView,
    e: EdgeRecord,
    heat: Option<HeatView>,
    h: Option<HeatRecord>,
    cluster: Option<ClusterView>,
    c: Option<ClusterOfFact>,
)
    requires
        shows_edge(edge, e),
        shows_heat(heat, h),
        shows_cluster_of(cluster, c),
    ensures
        edge.edge_type@ == e.edge_type@,
        edge.strength@ == e.strength@,
        e.in_node matches Some(id) ==> edge.in_id@ == id@,
        e.out_node matches Some(id) ==> edge.out_id@ == id@,
        heat is Some <==> h is Some,
        h matches Some(h) ==> {
            &&& heat->0.heat@ == h.heat@
            &&& heat->0.stability@ == h.stability@
            &&& heat->0.access_count == h.access_count
            &&& h.last_touched matches Some(t) ==> heat->0.last_touched@ == crate::time::minute_text(t)
        },
        cluster is Some <==> c is Some,
        c matches Some(c) ==> {
            &&& c.id matches Some(id) ==> cluster->0.id@ == id@
            &&& c.label matches Some(l) ==> cluster->0.label@ == l@
            &&& c.label is None ==> cluster->0.label@ == "unlabeled"@
        },
{
}

// ---------------------------------------------------------------------------
// Replies
// ---------------------------------------------------------------------------
/// Every item of a reply is a row, with the ID and the content that the reply gives it.
pub proof fn every_item_of_a_reply_is_a_row(
    rows: Seq<ResultRow>,
    text: Seq<char>,
    array: Seq<char>,
    i: int,
)
    requires
        are_rows(rows, text, array),
    ensures
        json_items(text, array) is None ==> rows.len() == 0,
        json_items(text, array) matches Some(n) ==> rows.len() == n,
        0 <= i < rows.len() ==> (json_string(text, array + "/"@ + decimal(i as nat) + "/id"@) matches Some(
            id,
        ) ==> rows[i].id@ == id),
        0 <= i < rows.len() ==> (json_string(
            text,
            array + "/"@ + decimal(i as nat) + "/content"@,
        ) matches Some(content) ==> rows[i].content@ == content),
        0 <= i < rows.len() ==> (crate::json::json_decimals(
            text,
            array + "/"@ + decimal(i as nat) + "/similarity"@,
            4,
        ) matches Some(similarity) ==> rows[i].similarity@ == similarity),
{
}

/// What the floor keeps and what it drops are together all the rows of the reply without it.
pub proof fn dropped_rows_are_those_behind_the_kept(
    all: Seq<ResultRow>,
    dropped: Seq<ResultRow>,
    text: Seq<char>,
    array: Seq<char>,
    kept: int,
)
    requires
        are_rows(all, text, array),
        are_rows_from(dropped, text, array, kept),
        0 <= kept <= all.len(),
    ensures
        kept + dropped.len() == all.len(),
        forall|i: int|
            0 <= i < dropped.len() ==> (#[trigger] dropped[i]).id@ == all[kept + i].id@
                && dropped[i].content@ == all[kept + i].content@ && dropped[i].similarity@ == all[kept
                + i].similarity@,
{
    assert(all.len() == item_count(text, array));
}

/// Every cluster of a reply is a section, with every representative that the reply lists for it.
pub proof fn every_cluster_of_a_reply_is_a_section(
    sections: Seq<RecallCluster>,
    text: Seq<char>,
    i: int,
)
    requires
        are_sections(sections, text),
        0 <= i < sections.len(),
    ensures
        json_items(text, "/clusters"@) matches Some(n) && sections.len() == n,
        json_string(text, "/clusters"@ + "/"@ + decimal(i as nat) + "/cluster_id"@) matches Some(id)
            ==> sections[i].id@ == id,
        ({
            let place = "/clusters"@ + "/"@ + decimal(i as nat) + "/representative_memories"@;
            &&& json_items(text, place) matches Some(n) ==> sections[i].contents@.len() == n
            &&& forall|k: int|
                0 <= k < sections[i].contents@.len() ==> (json_string(
                    text,
                    place + "/"@ + decimal(k as nat) + "/content"@,
                ) matches Some(content) ==> (#[trigger] sections[i].contents@[k])@ == content)
        }),
{
    assert(crate::debug::query::is_section(sections[i], text, i));
}

/// Every list writes its rows one after the other, each of them, in order.
pub proof fn every_row_is_written(
    memories: Seq<MemoryRow>,
    edges: Seq<EdgeView>,
    sessions: Seq<SessionRow>,
    attached: Seq<crate::debug::sessions::MemoryRow>,
    clusters: Seq<ClusterRow>,
    members: Seq<MemberRow>,
    log: Seq<MaintenanceRow>,
)
    ensures
        memories.len() > 0 ==> memory_rows(memories) == memory_rows(memories.drop_last())
            + memories.last().html(),
        edges.len() > 0 ==> edge_rows(edges) == edge_rows(edges.drop_last()) + edges.last().html(),
        sessions.len() > 0 ==> session_rows(sessions) == session_rows(sessions.drop_last())
            + sessions.last().html(),
        attached.len() > 0 ==> attached_rows(attached) == attached_rows(attached.drop_last())
            + attached.last().html(),
        clusters.len() > 0 ==> cluster_rows(clusters) == cluster_rows(clusters.drop_last())
            + clusters.last().html(),
        members.len() > 0 ==> member_rows(members) == member_rows(members.drop_last())
            + members.last().html(),
        log.len() > 0 ==> crate::debug::maintenance::rows_html(log)
            == crate::debug::maintenance::rows_html(log.drop_last()) + log.last().html(),
{
}

/// A reply to a query is written out whole: every result, every dropped one and every cluster.
pub proof fn every_result_is_written(
    rows: Seq<ResultRow>,
    sections: Seq<RecallCluster>,
    items: Seq<Seq<char>>,
)
    ensures
        rows.len() > 0 ==> rows_html(rows) == rows_html(rows.drop_last()) + rows.last().html(),
        rows.len() > 0 ==> dropped_html(rows).len() >= dropped_html(rows.drop_last()).len()
            + crate::debug::html::escape(rows.last().id@).len() && dropped_html(rows.drop_last())
            == dropped_html(rows).take(dropped_html(rows.drop_last()).len() as int),
        sections.len() > 0 ==> sections_html(sections) == sections_html(sections.drop_last())
            + sections.last().html(),
        items.len() > 0 ==> items_html(items) == items_html(items.drop_last()) + "<li>"@
            + crate::debug::html::escape(items.last()) + "</li>"@,
{
    if rows.len() > 0 {
        assert(dropped_html(rows.drop_last()) =~= dropped_html(rows).take(
            dropped_html(rows.drop_last()).len() as int,
        ));
    }
}

// ---------------------------------------------------------------------------
// Addresses
// ---------------------------------------------------------------------------
/// The address of a page without a filter in the default order names the page and nothing else.
pub proof fn an_address_names_its_page(l: Listing, limit: nat, offset: nat)
    requires
        l.search is None,
        l.tag is None,
        !l.include_deleted,
        l.sort == FactSort::CreatedAt,
        l.dir == SortDir::Desc,
    ensures
        address(l, limit as int, offset as int) == "/debug/memories?limit="@ + decimal(limit)
            + "&offset="@ + decimal(offset),
        crate::debug::sessions::address(limit as int, offset as int) == "/debug/sessions?limit="@
            + decimal(limit) + "&offset="@ + decimal(offset),
{
    reveal_strlit("");
    assert(address(l, limit as int, offset as int) =~= "/debug/memories?limit="@ + decimal(limit)
        + "&offset="@ + decimal(offset));
}

proof fn lemma_insert(
    front: Seq<char>,
    key: Seq<char>,
    value: Seq<char>,
    b1: Seq<char>,
    b2: Seq<char>,
    b3: Seq<char>,
    b4: Seq<char>,
)
    ensures
        ({
            let bare = front + b1 + b2 + b3 + b4;
            let at = front.len() as int;
            &&& at <= bare.len()
            &&& bare.take(at) + key + value + bare.skip(at) == front + (key + value) + b1 + b2 + b3 + b4
            &&& bare.take(at) + (key + value) + bare.skip(at) == front + (key + value) + b1 + b2 + b3
                + b4
        }),
{
    let bare = front + b1 + b2 + b3 + b4;
    let at = front.len() as int;
    assert(bare.take(at) =~= front);
    assert(bare.skip(at) =~= b1 + b2 + b3 + b4);
    assert(front + key + value + (b1 + b2 + b3 + b4) =~= front + (key + value) + b1 + b2 + b3 + b4);
    assert(front + (key + value) + (b1 + b2 + b3 + b4) =~= front + (key + value) + b1 + b2 + b3 + b4);
}

proof fn lemma_nothing(s: Seq<char>)
    ensures
        s + ""@ == s,
        s + Seq::<char>::empty() == s,
{
    reveal_strlit("");
    assert(s + ""@ =~= s);
    assert(s + Seq::<char>::empty() =~= s);
}

/// Each part of a filter and each turn away from the default order adds its own parameter to the address
/// and changes nothing else in it: the two addresses agree up to position `at` and behind the parameter.
pub proof fn an_address_carries_the_filter(
    l: Listing,
    limit: int,
    offset: int,
    search: Seq<char>,
    tag: Seq<char>,
) -> (at: (int, int, int, int, int))
    ensures
        ({
            let bare = address(Listing { search: None, ..l }, limit, offset);
            &&& 0 <= at.0 <= bare.len()
            &&& address(Listing { search: Some(search), ..l }, limit, offset) == bare.take(at.0)
                + "&search="@ + query_value(search) + bare.skip(at.0)
        }),
        ({
            let bare = address(Listing { tag: None, ..l }, limit, offset);
            &&& 0 <= at.1 <= bare.len()
            &&& address(Listing { tag: Some(tag), ..l }, limit, offset) == bare.take(at.1) + "&tag="@
                + query_value(tag) + bare.skip(at.1)
        }),
        ({
            let bare = address(Listing { include_deleted: false, ..l }, limit, offset);
            &&& 0 <= at.2 <= bare.len()
            &&& address(Listing { include_deleted: true, ..l }, limit, offset) == bare.take(at.2)
                + "&include_deleted=true"@ + bare.skip(at.2)
        }),
        ({
            let bare = address(Listing { sort: FactSort::CreatedAt, ..l }, limit, offset);
            &&& 0 <= at.3 <= bare.len()
            &&& l.sort != FactSort::CreatedAt ==> address(l, limit, offset) == bare.take(at.3)
                + "&sort="@ + l.sort.key() + bare.skip(at.3)
        }),
        ({
            let bare = address(Listing { dir: SortDir::Desc, ..l }, limit, offset);
            &&& 0 <= at.4 <= bare.len()
            &&& address(Listing { dir: SortDir::Asc, ..l }, limit, offset) == bare.take(at.4)
                + "&dir=asc"@ + bare.skip(at.4)
        }),
{
    let page = "/debug/memories?limit="@ + decimal(limit as nat) + "&offset="@ + decimal(
        offset as nat,
    );
    let s = match l.search {
        Some(s) => "&search="@ + query_value(s),
        None => ""@,
    };
    let t = match l.tag {
        Some(s) => "&tag="@ + query_value(s),
        None => ""@,
    };
    let d = if l.include_deleted {
        "&include_deleted=true"@
    } else {
        ""@
    };
    let o = if l.sort != FactSort::CreatedAt {
        "&sort="@ + l.sort.key()
    } else {
        ""@
    };
    let r = if l.dir != SortDir::Desc {
        "&dir="@ + l.dir.key()
    } else {
        ""@
    };
    let none = Seq::<char>::empty();
    lemma_nothing(page);
    lemma_insert(page, "&search="@, query_value(search), t, d, o, r);
    lemma_nothing(page + s);
    lemma_nothing(page + s + d + o + r);
    lemma_nothing(page + s + ("&tag="@ + query_value(tag)) + d + o + r);
    lemma_insert(page + s, "&tag="@, query_value(tag), d, o, r, none);
    lemma_nothing("&include_deleted=true"@);
    lemma_nothing(page + s + t);
    lemma_nothing(page + s + t + o + r);
    lemma_nothing(page + s + t + "&include_deleted=true"@ + o + r);
    lemma_insert(page + s + t, "&include_deleted=true"@, none, o, r, none, none);
    lemma_nothing(page + s + t + d);
    lemma_nothing(page + s + t + d + r);
    lemma_nothing(page + s + t + d + ("&sort="@ + l.sort.key()) + r);
    lemma_insert(page + s + t + d, "&sort="@, l.sort.key(), r, none, none, none);
    lemma_nothing(page + s + t + d + o);
    reveal_strlit("&dir=");
    reveal_strlit("asc");
    reveal_strlit("&dir=asc");
    assert("&dir="@ + SortDir::Asc.key() =~= "&dir=asc"@);
    lemma_nothing("&dir=asc"@);
    lemma_nothing(page + s + t + d + o + "&dir=asc"@);
    lemma_insert(page + s + t + d + o, "&dir=asc"@, none, none, none, none, none);
    (
        page.len() as int,
        (page + s).len() as int,
        (page + s + t).len() as int,
        (page + s + t + d).len() as int,
        (page + s + t + d + o).len() as int,
    )
}

} // verus!
