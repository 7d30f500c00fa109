//! The memories: their list, which can be filtered, sorted and paged, and one of them in detail.
use vstd::prelude::*;

use crate::debug::clusters::id_text;
use crate::debug::graph::preview_text;
use crate::debug::html::{
    badges_html, cell_html, encode_query_value, escaped, format_dt, layout_html, record_link_html,
};
use crate::debug::paging::{foot_html, read_number, showing_text};
use crate::numbers::{signed_text, size_text};
use crate::text::{copy_of, copy_texts, same};
use crate::time::Instant;

verus! {

// ---------------------------------------------------------------------------
// Sorting
// ---------------------------------------------------------------------------
/// The column by which the list is ordered.
#[derive(Clone, Copy, Debug, PartialEq, Eq, Structural)]
pub enum FactSort {
    CreatedAt,
    Confidence,
    Content,
    Id,
    TagCount,
}

/// The direction of the order.
#[derive(Clone, Copy, Debug, PartialEq, Eq, Structural)]
pub enum SortDir {
    Asc,
    Desc,
}

/// Memories per page unless the request says otherwise.
pub const DEFAULT_FACT_LIST_LIMIT: usize = 50;

/// Characters of a memory that its row shows.
pub const PREVIEW_CHARS: usize = 120;

impl FactSort {
    /// The form of a column in an address.
    pub open spec fn key(self) -> Seq<char> {
        match self {
            FactSort::CreatedAt => "created"@,
            FactSort::Confidence => "confidence"@,
            FactSort::Content => "content"@,
            FactSort::Id => "id"@,
            FactSort::TagCount => "tags"@,
        }
    }
}

impl SortDir {
    /// The form of a direction in an address.
    pub open spec fn key(self) -> Seq<char> {
        match self {
            SortDir::Asc => "asc"@,
            SortDir::Desc => "desc"@,
        }
    }

    /// The other direction.
    pub open spec fn flipped(self) -> SortDir {
        match self {
            SortDir::Asc => SortDir::Desc,
            SortDir::Desc => SortDir::Asc,
        }
    }
}

/// The form of a column in an address.
pub fn sort_key(sort: FactSort) -> (r: &'static str)
    ensures
        r@ == sort.key(),
{
    match sort {
        FactSort::CreatedAt => "created",
        FactSort::Confidence => "confidence",
        FactSort::Content => "content",
        FactSort::Id => "id",
        FactSort::TagCount => "tags",
    }
}

/// The form of a direction in an address.
pub fn dir_key(dir: SortDir) -> (r: &'static str)
    ensures
        r@ == dir.key(),
{
    match dir {
        SortDir::Asc => "asc",
        SortDir::Desc => "desc",
    }
}

/// The column that a parameter names. Whatever is no column's key gives the newest first.
pub open spec fn sort_of(raw: Option<Seq<char>>) -> FactSort {
    match raw {
        Some(s) => if s == FactSort::Confidence.key() {
            FactSort::Confidence
        } else if s == FactSort::Content.key() {
            FactSort::Content
        } else if s == FactSort::Id.key() {
            FactSort::Id
        } else if s == FactSort::TagCount.key() {
            FactSort::TagCount
        } else {
            FactSort::CreatedAt
        },
        None => FactSort::CreatedAt,
    }
}

/// The direction that a parameter names.
pub open spec fn dir_of(raw: Option<Seq<char>>) -> SortDir {
    if raw == Some(SortDir::Asc.key()) {
        SortDir::Asc
    } else {
        SortDir::Desc
    }
}

/// Reads a column over a closed list of keys.
pub fn parse_sort(raw: Option<&String>) -> (r: FactSort)
    ensures
        r == sort_of(
            match raw {
                Some(s) => Some(s@),
                None => None,
            },
        ),
{
    match raw {
        Some(s) => if same(s.as_str(), "confidence") {
            FactSort::Confidence
        } else if same(s.as_str(), "content") {
            FactSort::Content
        } else if same(s.as_str(), "id") {
            FactSort::Id
        } else if same(s.as_str(), "tags") {
            FactSort::TagCount
        } else {
            FactSort::CreatedAt
        },
        None => FactSort::CreatedAt,
    }
}

/// Reads a direction over a closed list of keys.
pub fn parse_dir(raw: Option<&String>) -> (r: SortDir)
    ensures
        r == dir_of(
            match raw {
                Some(s) => Some(s@),
                None => None,
            },
        ),
{
    match raw {
        Some(s) => if same(s.as_str(), "asc") {
            SortDir::Asc
        } else {
            SortDir::Desc
        },
        None => SortDir::Desc,
    }
}

/// What an address says of a column and a direction reads back as that column and direction, so a
/// header's link and a hand-typed address cannot drift apart.
pub proof fn sort_keys_read_back(sort: FactSort, dir: SortDir)
    ensures
        sort_of(Some(sort.key())) == sort,
        dir_of(Some(dir.key())) == dir,
{
    reveal_strlit("created");
    reveal_strlit("confidence");
    reveal_strlit("content");
    reveal_strlit("id");
    reveal_strlit("tags");
    reveal_strlit("asc");
    reveal_strlit("desc");
    assert("created"@[0] == 'c');
    assert("confidence"@.len() == 10);
    assert("content"@.len() == 7);
    assert("content"@[1] == 'o');
    assert("created"@[1] == 'r');
    assert("created"@.len() == 7);
    assert("id"@.len() == 2);
    assert("tags"@.len() == 4);
    assert("asc"@.len() == 3);
    assert("desc"@.len() == 4);
}

/// A parameter that is no column's key orders the list as if it were absent.
pub proof fn an_unknown_sort_is_the_default(raw: Seq<char>)
    requires
        forall|s: FactSort| raw != #[trigger] s.key(),
    ensures
        sort_of(Some(raw)) == sort_of(None),
{
    assert(raw != FactSort::Confidence.key());
    assert(raw != FactSort::Content.key());
    assert(raw != FactSort::Id.key());
    assert(raw != FactSort::TagCount.key());
}

// ---------------------------------------------------------------------------
// Addresses
// ---------------------------------------------------------------------------
/// A filter and an order of the list.
pub ghost struct Listing {
    pub search: Option<Seq<char>>,
    pub tag: Option<Seq<char>>,
    pub include_deleted: bool,
    pub sort: FactSort,
    pub dir: SortDir,
}

/// The address of a page of the list. The default order is not spelled out.
pub open spec fn address(l: Listing, limit: int, offset: int) -> Seq<char> {
    "/debug/memories?limit="@ + crate::numbers::decimal(limit as nat) + "&offset="@
        + crate::numbers::decimal(offset as nat) + (match l.search {
        Some(s) => "&search="@ + crate::debug::html::query_value(s),
        None => ""@,
    }) + (match l.tag {
        Some(s) => "&tag="@ + crate::debug::html::query_value(s),
        None => ""@,
    }) + (if l.include_deleted {
        "&include_deleted=true"@
    } else {
        ""@
    }) + (if l.sort != FactSort::CreatedAt {
        "&sort="@ + l.sort.key()
    } else {
        ""@
    }) + (if l.dir != SortDir::Desc {
        "&dir="@ + l.dir.key()
    } else {
        ""@
    })
}

fn query_part(name: &str, value: Option<&str>) -> (r: String)
    ensures
        r@ == (match value {
            Some(s) => name@ + crate::debug::html::query_value(s@),
            None => ""@,
        }),
{
    match value {
        Some(s) => {
            let mut r = copy_of(name);
            let v = encode_query_value(s);
            r.append(v.as_str());
            r
        },
        None => copy_of(""),
    }
}

/// The address of a page of the list.
pub fn memories_url(
    search: Option<&str>,
    tag: Option<&str>,
    include_deleted: bool,
    sort: FactSort,
    dir: SortDir,
    limit: usize,
    offset: usize,
) -> (r: String)
    ensures
        r@ == address(
            (Listing {
                search: match search {
                    Some(s) => Some(s@),
                    None => None,
                },
                tag: match tag {
                    Some(s) => Some(s@),
                    None => None,
                },
                include_deleted,
                sort,
                dir,
            }),
            limit as int,
            offset as int,
        ),
{
    let mut r = copy_of("/debug/memories?limit=");
    let l = size_text(limit);
    r.append(l.as_str());
    r.append("&offset=");
    let o = size_text(offset);
    r.append(o.as_str());
    let s = query_part("&search=", search);
    r.append(s.as_str());
    let t = query_part("&tag=", tag);
    r.append(t.as_str());
    if include_deleted {
        r.append("&include_deleted=true");
    } else {
        r.append("");
    }
    let mut by = copy_of("");
    if sort != FactSort::CreatedAt {
        by = copy_of("&sort=");
        by.append(sort_key(sort));
    }
    r.append(by.as_str());
    let mut way = copy_of("");
    if dir != SortDir::Desc {
        way = copy_of("&dir=");
        way.append(dir_key(dir));
    }
    r.append(way.as_str());
    r
}

/// Where the header of a column leads: the active column flips its direction, any other one sorts
/// descending, and the first page is shown.
pub open spec fn header_listing(l: Listing, column: FactSort) -> Listing {
    Listing {
        sort: column,
        dir: if column == l.sort {
            l.dir.flipped()
        } else {
            SortDir::Desc
        },
        ..l
    }
}

/// Following the header of the active column twice leads back to the same order, and no header
/// touches the filter.
pub proof fn a_header_keeps_the_filter(l: Listing, column: FactSort)
    ensures
        header_listing(l, column).search == l.search,
        header_listing(l, column).tag == l.tag,
        header_listing(l, column).include_deleted == l.include_deleted,
        header_listing(l, column).sort == column,
        header_listing(header_listing(l, l.sort), l.sort) == l,
{
}

/// The address behind the header of a column.
pub fn sort_link(
    search: Option<&str>,
    tag: Option<&str>,
    include_deleted: bool,
    limit: usize,
    column: FactSort,
    active: FactSort,
    dir: SortDir,
) -> (r: String)
    ensures
        r@ == address(
            header_listing(
                (Listing {
                    search: match search {
                        Some(s) => Some(s@),
                        None => None,
                    },
                    tag: match tag {
                        Some(s) => Some(s@),
                        None => None,
                    },
                    include_deleted,
                    sort: active,
                    dir,
                }),
                column,
            ),
            limit as int,
            0,
        ),
{
    let target = if column == active {
        match dir {
            SortDir::Asc => SortDir::Desc,
            SortDir::Desc => SortDir::Asc,
        }
    } else {
        SortDir::Desc
    };
    memories_url(search, tag, include_deleted, column, target, limit, 0)
}

// ---------------------------------------------------------------------------
// The list
// ---------------------------------------------------------------------------
/// The raw parameters of the list.
#[derive(Debug)]
pub struct ListParams {
    pub search: Option<String>,
    pub tag: Option<String>,
    pub include_deleted: Option<String>,
    pub limit: Option<String>,
    pub offset: Option<String>,
    pub sort: Option<String>,
    pub dir: Option<String>,
}

/// What the list asks of the store.
#[derive(Debug)]
pub struct FactListQuery {
    pub search: Option<String>,
    pub tag: Option<String>,
    pub include_deleted: bool,
    pub sort: FactSort,
    pub dir: SortDir,
    pub limit: usize,
    pub offset: usize,
}

impl FactListQuery {
    /// The filter and the order.
    pub open spec fn listing(self) -> Listing {
        Listing {
            search: crate::text::opt_text(self.search),
            tag: crate::text::opt_text(self.tag),
            include_deleted: self.include_deleted,
            sort: self.sort,
            dir: self.dir,
        }
    }
}

/// A filter: an empty one is none.
pub open spec fn filter_of(raw: Option<Seq<char>>) -> Option<Seq<char>> {
    match raw {
        Some(s) => if s.len() == 0 {
            None
        } else {
            Some(s)
        },
        None => None,
    }
}

fn read_filter(raw: &Option<String>) -> (r: Option<String>)
    ensures
        crate::text::opt_text(r) == filter_of(crate::text::opt_text(*raw)),
{
    match raw {
        Some(s) => if s.as_str().is_empty() {
            None
        } else {
            Some(copy_of(s.as_str()))
        },
        None => None,
    }
}

/// The raw parameters read. No value is refused: a typo gives the default.
pub fn read_params(params: &ListParams) -> (r: FactListQuery)
    ensures
        r.listing() == (Listing {
            search: filter_of(crate::text::opt_text(params.search)),
            tag: filter_of(crate::text::opt_text(params.tag)),
            include_deleted: crate::text::opt_text(params.include_deleted) == Some("true"@),
            sort: sort_of(crate::text::opt_text(params.sort)),
            dir: dir_of(crate::text::opt_text(params.dir)),
        }),
        r.limit == crate::debug::paging::number_or(
            crate::text::opt_text(params.limit),
            DEFAULT_FACT_LIST_LIMIT,
        ),
        params.limit is None ==> r.limit == 50,
        r.offset == crate::debug::paging::number_or(crate::text::opt_text(params.offset), 0),
{
    let include_deleted = match &params.include_deleted {
        Some(s) => same(s.as_str(), "true"),
        None => false,
    };
    FactListQuery {
        search: read_filter(&params.search),
        tag: read_filter(&params.tag),
        include_deleted,
        sort: parse_sort(params.sort.as_ref()),
        dir: parse_dir(params.dir.as_ref()),
        limit: read_number(&params.limit, DEFAULT_FACT_LIST_LIMIT),
        offset: read_number(&params.offset, 0),
    }
}

/// A stored memory, with its confidence already written out.
#[derive(Debug)]
pub struct FactRecord {
    pub id: Option<String>,
    pub content: String,
    pub tags: Vec<String>,
    pub confidence: String,
    pub created_at: Option<Instant>,
    pub deleted: bool,
}

/// The headers of the table: where each leads, and which one is active.
#[derive(Debug)]
pub struct SortLinks {
    pub id: String,
    pub content: String,
    pub tags: String,
    pub confidence: String,
    pub created: String,
    pub active: &'static str,
    pub dir: &'static str,
}

/// A memory as the list shows it.
#[derive(Debug)]
pub struct MemoryRow {
    pub id: String,
    pub preview: String,
    pub tags: Vec<String>,
    pub confidence: String,
    pub created: String,
    pub deleted: bool,
}

/// The list of memories.
#[derive(Debug)]
pub struct MemoriesTemplate {
    pub nav: &'static str,
    pub search: String,
    pub tag: String,
    pub include_deleted: bool,
    pub rows: Vec<MemoryRow>,
    pub prev_href: String,
    pub next_href: String,
    pub summary: String,
    pub sorts: SortLinks,
}

/// Whether a row shows a memory.
pub open spec fn shows_fact(row: MemoryRow, f: FactRecord) -> bool {
    &&& row.id@ == crate::debug::clusters::id_or_empty(f.id)
    &&& row.preview@ == crate::debug::graph::preview(f.content@, PREVIEW_CHARS as nat)
    &&& crate::text::texts(row.tags@) == crate::text::texts(f.tags@)
    &&& row.confidence@ == f.confidence@
    &&& row.created@ == crate::debug::html::dt_text(f.created_at)
    &&& row.deleted == f.deleted
}

/// Whether the headers lead where they should.
pub open spec fn links_of(s: SortLinks, l: Listing, limit: int) -> bool {
    &&& s.id@ == address(header_listing(l, FactSort::Id), limit, 0)
    &&& s.content@ == address(header_listing(l, FactSort::Content), limit, 0)
    &&& s.tags@ == address(header_listing(l, FactSort::TagCount), limit, 0)
    &&& s.confidence@ == address(header_listing(l, FactSort::Confidence), limit, 0)
    &&& s.created@ == address(header_listing(l, FactSort::CreatedAt), limit, 0)
    &&& s.active@ == l.sort.key()
    &&& s.dir@ == l.dir.key()
}

/// An address, empty where there is no such page.
pub open spec fn page_at(l: Listing, limit: int, offset: Option<int>) -> Seq<char> {
    match offset {
        Some(o) => address(l, limit, o),
        None => ""@,
    }
}

fn as_str_opt(o: &Option<String>) -> (r: Option<&str>)
    ensures
        (match r {
            Some(s) => Some(s@),
            None => None,
        }) == crate::text::opt_text(*o),
{
    match o {
        Some(s) => Some(s.as_str()),
        None => None,
    }
}

fn text_or_empty(o: &Option<String>) -> (r: String)
    ensures
        r@ == (match crate::text::opt_text(*o) {
            Some(s) => s,
            None => ""@,
        }),
{
    match o {
        Some(s) => copy_of(s.as_str()),
        None => copy_of(""),
    }
}

fn links(query: &FactListQuery) -> (r: SortLinks)
    ensures
        links_of(r, query.listing(), query.limit as int),
{
    let s = as_str_opt(&query.search);
    let t = as_str_opt(&query.tag);
    let d = query.include_deleted;
    let l = query.limit;
    SortLinks {
        id: sort_link(s, t, d, l, FactSort::Id, query.sort, query.dir),
        content: sort_link(s, t, d, l, FactSort::Content, query.sort, query.dir),
        tags: sort_link(s, t, d, l, FactSort::TagCount, query.sort, query.dir),
        confidence: sort_link(s, t, d, l, FactSort::Confidence, query.sort, query.dir),
        created: sort_link(s, t, d, l, FactSort::CreatedAt, query.sort, query.dir),
        active: sort_key(query.sort),
        dir: dir_key(query.dir),
    }
}

/// The list of memories, given a page of them and how many there are in all. Where they could not be
/// counted, those of the page are all that is known of.
pub fn list(query: &FactListQuery, facts: &Vec<FactRecord>, counted: Option<usize>) -> (r:
    MemoriesTemplate)
    requires
        query.offset + facts@.len() <= usize::MAX,
        (counted is Some && query.offset + facts@.len() < counted->0) ==> query.offset + query.limit
            <= usize::MAX,
    ensures
        ({
            let total = match counted {
                Some(n) => n as int,
                None => facts@.len() as int,
            };
            let l = query.listing();
            &&& r.nav@ == "memories"@
            &&& r.search@ == (match l.search {
                Some(s) => s,
                None => ""@,
            })
            &&& r.tag@ == (match l.tag {
                Some(s) => s,
                None => ""@,
            })
            &&& r.include_deleted == query.include_deleted
            &&& r.rows@.len() == facts@.len()
            &&& forall|i: int| 0 <= i < facts@.len() ==> shows_fact(#[trigger] r.rows@[i], facts@[i])
            &&& r.summary@ == crate::debug::paging::showing(
                query.offset as int,
                facts@.len() as int,
                total,
                "memories"@,
            )
            &&& r.prev_href@ == page_at(
                l,
                query.limit as int,
                crate::debug::paging::prev_offset(query.offset as int, query.limit as int),
            )
            &&& r.next_href@ == page_at(
                l,
                query.limit as int,
                crate::debug::paging::next_offset(
                    query.offset as int,
                    query.limit as int,
                    facts@.len() as int,
                    total,
                ),
            )
            &&& links_of(r.sorts, l, query.limit as int)
        }),
{
    let total: usize = match counted {
        Some(n) => n,
        None => facts.len(),
    };
    let mut rows: Vec<MemoryRow> = Vec::new();
    let mut i: usize = 0;
    while i < facts.len()
        invariant
            i <= facts@.len(),
            rows@.len() == i,
            forall|k: int| 0 <= k < i ==> shows_fact(#[trigger] rows@[k], facts@[k]),
        decreases facts@.len() - i,
    {
        let f = &facts[i];
        let row = MemoryRow {
            id: id_text(&f.id),
            preview: preview_text(f.content.as_str(), PREVIEW_CHARS),
            tags: copy_texts(&f.tags),
            confidence: copy_of(f.confidence.as_str()),
            created: format_dt(f.created_at),
            deleted: f.deleted,
        };
        rows.push(row);
        i = i + 1;
    }
    let s = as_str_opt(&query.search);
    let t = as_str_opt(&query.tag);
    let d = query.include_deleted;
    let prev_href = if query.offset > 0 {
        let o: usize = if query.offset > query.limit {
            query.offset - query.limit
        } else {
            0
        };
        memories_url(s, t, d, query.sort, query.dir, query.limit, o)
    } else {
        copy_of("")
    };
    let next_href = if query.offset + facts.len() < total {
        memories_url(s, t, d, query.sort, query.dir, query.limit, query.offset + query.limit)
    } else {
        copy_of("")
    };
    MemoriesTemplate {
        nav: "memories",
        search: text_or_empty(&query.search),
        tag: text_or_empty(&query.tag),
        include_deleted: query.include_deleted,
        rows,
        prev_href,
        next_href,
        summary: showing_text(query.offset, facts.len(), total, "memories"),
        sorts: links(query),
    }
}

// ---------------------------------------------------------------------------
// Rendering the list
// ---------------------------------------------------------------------------
/// The header of a column: the active one says so and shows its direction.
pub open spec fn header(key: Seq<char>, label: Seq<char>, href: Seq<char>, sorts: SortLinks) -> Seq<
    char,
> {
    (if sorts.active@ == key {
        if sorts.dir@ == "asc"@ {
            "<th aria-sort=\"ascending\">"@
        } else {
            "<th aria-sort=\"descending\">"@
        }
    } else {
        "<th>"@
    }) + "<a class=\"link\" href=\""@ + crate::debug::html::escape(href) + "\">"@ + label + (
    if sorts.active@ == key {
        if sorts.dir@ == "asc"@ {
            " ▲"@
        } else {
            " ▼"@
        }
    } else {
        ""@
    }) + "</a></th>"@
}

fn header_html(key: &str, label: &str, href: &str, sorts: &SortLinks) -> (r: String)
    ensures
        r@ == header(key@, label@, href@, *sorts),
{
    let active = same(sorts.active, key);
    let up = same(sorts.dir, "asc");
    let mut r = copy_of(
        if active {
            if up {
                "<th aria-sort=\"ascending\">"
            } else {
                "<th aria-sort=\"descending\">"
            }
        } else {
            "<th>"
        },
    );
    r.append("<a class=\"link\" href=\"");
    let h = escaped(href);
    r.append(h.as_str());
    r.append("\">");
    r.append(label);
    let mark = copy_of(
        if active {
            if up {
                " ▲"
            } else {
                " ▼"
            }
        } else {
            ""
        },
    );
    r.append(mark.as_str());
    r.append("</a></th>");
    r
}

/// The headers of the table.
pub open spec fn headers(sorts: SortLinks) -> Seq<char> {
    "<tr>"@ + header("id"@, "ID"@, sorts.id@, sorts) + header(
        "content"@,
        "Content"@,
        sorts.content@,
        sorts,
    ) + header("tags"@, "Tags (count)"@, sorts.tags@, sorts) + header(
        "confidence"@,
        "Confidence"@,
        sorts.confidence@,
        sorts,
    ) + header("created"@, "Created"@, sorts.created@, sorts) + "</tr>"@
}

fn headers_html(sorts: &SortLinks) -> (r: String)
    ensures
        r@ == headers(*sorts),
{
    let mut r = copy_of("<tr>");
    let a = header_html("id", "ID", sorts.id.as_str(), sorts);
    r.append(a.as_str());
    let b = header_html("content", "Content", sorts.content.as_str(), sorts);
    r.append(b.as_str());
    let c = header_html("tags", "Tags (count)", sorts.tags.as_str(), sorts);
    r.append(c.as_str());
    let d = header_html("confidence", "Confidence", sorts.confidence.as_str(), sorts);
    r.append(d.as_str());
    let e = header_html("created", "Created", sorts.created.as_str(), sorts);
    r.append(e.as_str());
    r.append("</tr>");
    r
}

impl MemoryRow {
    /// The row as text; a deleted memory is marked.
    pub open spec fn html(self) -> Seq<char> {
        (if self.deleted {
            "<tr class=\"deleted\"><td>"@
        } else {
            "<tr><td>"@
        }) + crate::debug::html::record_link("/debug/memories/"@, self.id@) + "</td>"@
            + crate::debug::html::cell(self.preview@) + "<td class=\"tags\">"@
            + crate::debug::html::badges(crate::text::texts(self.tags@)) + "</td>"@
            + crate::debug::html::cell(self.confidence@) + crate::debug::html::cell(self.created@)
            + "</tr>"@
    }

    fn render(&self) -> (r: String)
        ensures
            r@ == self.html(),
    {
        let mut r = copy_of(
            if self.deleted {
                "<tr class=\"deleted\"><td>"
            } else {
                "<tr><td>"
            },
        );
        let l = record_link_html("/debug/memories/", self.id.as_str());
        r.append(l.as_str());
        r.append("</td>");
        let p = cell_html(self.preview.as_str());
        r.append(p.as_str());
        r.append("<td class=\"tags\">");
        let t = badges_html(&self.tags);
        r.append(t.as_str());
        r.append("</td>");
        let c = cell_html(self.confidence.as_str());
        r.append(c.as_str());
        let d = cell_html(self.created.as_str());
        r.append(d.as_str());
        r.append("</tr>");
        r
    }
}

/// Rows, one after the other.
pub open spec fn memory_rows(rows: Seq<MemoryRow>) -> Seq<char>
    decreases rows.len(),
{
    if rows.len() == 0 {
        seq![]
    } else {
        memory_rows(rows.drop_last()) + rows.last().html()
    }
}

/// The form that filters the list; it carries the order along.
pub open spec fn filter_form(t: MemoriesTemplate) -> Seq<char> {
    "<form method=\"get\" action=\"/debug/memories\" hx-get=\"/debug/memories\" hx-target=\"body\"><input type=\"text\" name=\"search\" placeholder=\"Search\" value=\""@
        + crate::debug::html::escape(t.search@)
        + "\"><input type=\"text\" name=\"tag\" placeholder=\"Tag\" value=\""@
        + crate::debug::html::escape(t.tag@) + (if t.include_deleted {
        "\"><label><input type=\"checkbox\" name=\"include_deleted\" value=\"true\" checked> Show deleted</label>"@
    } else {
        "\"><label><input type=\"checkbox\" name=\"include_deleted\" value=\"true\"> Show deleted</label>"@
    }) + "<input type=\"hidden\" name=\"sort\" value=\""@ + crate::debug::html::escape(
        t.sorts.active@,
    ) + "\"><input type=\"hidden\" name=\"dir\" value=\""@ + crate::debug::html::escape(t.sorts.dir@)
        + "\"><button type=\"submit\">Filter</button></form>"@
}

fn filter_form_html(t: &MemoriesTemplate) -> (r: String)
    ensures
        r@ == filter_form(*t),
{
    let mut r = copy_of(
        "<form method=\"get\" action=\"/debug/memories\" hx-get=\"/debug/memories\" hx-target=\"body\"><input type=\"text\" name=\"search\" placeholder=\"Search\" value=\"",
    );
    let s = escaped(t.search.as_str());
    r.append(s.as_str());
    r.append("\"><input type=\"text\" name=\"tag\" placeholder=\"Tag\" value=\"");
    let g = escaped(t.tag.as_str());
    r.append(g.as_str());
    if t.include_deleted {
        r.append(
            "\"><label><input type=\"checkbox\" name=\"include_deleted\" value=\"true\" checked> Show deleted</label>",
        );
    } else {
        r.append(
            "\"><label><input type=\"checkbox\" name=\"include_deleted\" value=\"true\"> Show deleted</label>",
        );
    }
    r.append("<input type=\"hidden\" name=\"sort\" value=\"");
    let a = escaped(t.sorts.active);
    r.append(a.as_str());
    r.append("\"><input type=\"hidden\" name=\"dir\" value=\"");
    let d = escaped(t.sorts.dir);
    r.append(d.as_str());
    r.append("\"><button type=\"submit\">Filter</button></form>");
    r
}

impl MemoriesTemplate {
    /// The page as text.
    pub open spec fn html(self) -> Seq<char> {
        crate::debug::html::layout(
            self.nav@,
            "<h1>Memories</h1>"@ + filter_form(self) + "<table>"@ + headers(self.sorts) + (
            if self.rows@.len() == 0 {
                "<tr><td colspan=\"5\" class=\"empty\">No memories.</td></tr>"@
            } else {
                memory_rows(self.rows@)
            }) + "</table>"@ + crate::debug::paging::foot(self.prev_href@, self.next_href@, self.summary@),
        )
    }

    /// Renders the page.
    pub fn render(&self) -> (r: String)
        ensures
            r@ == self.html(),
    {
        let mut body = copy_of("<h1>Memories</h1>");
        let form = filter_form_html(self);
        body.append(form.as_str());
        body.append("<table>");
        let head = headers_html(&self.sorts);
        body.append(head.as_str());
        if self.rows.len() == 0 {
            body.append("<tr><td colspan=\"5\" class=\"empty\">No memories.</td></tr>");
        } else {
            let mut rows = String::new();
            let mut i: usize = 0;
            while i < self.rows.len()
                invariant
                    i <= self.rows@.len(),
                    rows@ == memory_rows(self.rows@.take(i as int)),
                decreases self.rows@.len() - i,
            {
                assert(self.rows@.take(i + 1).drop_last() =~= self.rows@.take(i as int));
                let row = self.rows[i].render();
                rows.append(row.as_str());
                i = i + 1;
            }
            assert(self.rows@.take(self.rows@.len() as int) =~= self.rows@);
            body.append(rows.as_str());
        }
        body.append("</table>");
        let f = foot_html(
            self.prev_href.as_str(),
            self.next_href.as_str(),
            self.summary.as_str(),
        );
        body.append(f.as_str());
        layout_html(self.nav, body.as_str())
    }
}

// ---------------------------------------------------------------------------
// One memory
// ---------------------------------------------------------------------------
/// The heat of a memory, with its numbers already written out.
#[derive(Debug)]
pub struct HeatView {
    pub heat: String,
    pub stability: String,
    pub access_count: i64,
    pub last_touched: String,
}

/// The cluster of a memory.
#[derive(Debug)]
pub struct ClusterView {
    pub label: String,
    pub id: String,
}

/// An edge at a memory.
#[derive(Debug)]
pub struct EdgeView {
    pub edge_type: String,
    pub in_id: String,
    pub out_id: String,
    pub strength: String,
}

/// The page of one memory.
#[derive(Debug)]
pub struct MemoryDetailTemplate {
    pub nav: &'static str,
    pub id: String,
    pub deleted: bool,
    pub content: String,
    pub tags: Vec<String>,
    pub confidence: String,
    pub created_at: String,
    pub heat: Option<HeatView>,
    pub cluster: Option<ClusterView>,
    pub edges: Vec<EdgeView>,
    pub metadata: Option<String>,
}

/// The stored heat of a memory, with its numbers already written out.
#[derive(Debug)]
pub struct HeatRecord {
    pub heat: String,
    pub stability: String,
    pub access_count: i64,
    pub last_touched: Option<Instant>,
}

/// The stored cluster of a memory.
#[derive(Debug)]
pub struct ClusterOfFact {
    pub label: Option<String>,
    pub id: Option<String>,
}

/// A stored edge, with its strength already written out.
#[derive(Debug)]
pub struct EdgeRecord {
    pub edge_type: String,
    pub in_node: Option<String>,
    pub out_node: Option<String>,
    pub strength: String,
}

/// Whether a view shows an edge.
pub open spec fn shows_edge(v: EdgeView, e: EdgeRecord) -> bool {
    &&& v.edge_type@ == e.edge_type@
    &&& v.in_id@ == crate::debug::clusters::id_or_empty(e.in_node)
    &&& v.out_id@ == crate::debug::clusters::id_or_empty(e.out_node)
    &&& v.strength@ == e.strength@
}

/// Whether a view shows the heat of a memory.
pub open spec fn shows_heat(v: Option<HeatView>, h: Option<HeatRecord>) -> bool {
    match (v, h) {
        (Some(v), Some(h)) => {
            &&& v.heat@ == h.heat@
            &&& v.stability@ == h.stability@
            &&& v.access_count == h.access_count
            &&& v.last_touched@ == crate::debug::html::dt_text(h.last_touched)
        },
        (None, None) => true,
        _ => false,
    }
}

/// Whether a view shows the cluster of a memory.
pub open spec fn shows_cluster_of(v: Option<ClusterView>, c: Option<ClusterOfFact>) -> bool {
    match (v, c) {
        (Some(v), Some(c)) => {
            &&& v.label@ == (match c.label {
                Some(l) => l@,
                None => "unlabeled"@,
            })
            &&& v.id@ == crate::debug::clusters::id_or_empty(c.id)
        },
        (None, None) => true,
        _ => false,
    }
}

/// The page of one memory. Heat, cluster and edges that could not be read are passed as absent.
pub fn detail(
    id: &str,
    fact: &FactRecord,
    metadata: Option<String>,
    heat: &Option<HeatRecord>,
    cluster: &Option<ClusterOfFact>,
    edges: &Vec<EdgeRecord>,
) -> (r: MemoryDetailTemplate)
    ensures
        r.nav@ == "memories"@,
        r.id@ == id@,
        r.deleted == fact.deleted,
        r.content@ == fact.content@,
        crate::text::texts(r.tags@) == crate::text::texts(fact.tags@),
        r.confidence@ == fact.confidence@,
        r.created_at@ == crate::debug::html::dt_text(fact.created_at),
        shows_heat(r.heat, *heat),
        shows_cluster_of(r.cluster, *cluster),
        r.edges@.len() == edges@.len(),
        forall|i: int| 0 <= i < edges@.len() ==> shows_edge(#[trigger] r.edges@[i], edges@[i]),
        r.metadata == metadata,
{
    let mut views: Vec<EdgeView> = Vec::new();
    let mut i: usize = 0;
    while i < edges.len()
        invariant
            i <= edges@.len(),
            views@.len() == i,
            forall|k: int| 0 <= k < i ==> shows_edge(#[trigger] views@[k], edges@[k]),
        decreases edges@.len() - i,
    {
        let e = &edges[i];
        let v = EdgeView {
            edge_type: copy_of(e.edge_type.as_str()),
            in_id: id_text(&e.in_node),
            out_id: id_text(&e.out_node),
            strength: copy_of(e.strength.as_str()),
        };
        views.push(v);
        i = i + 1;
    }
    let heat_view = match heat {
        Some(h) => Some(
            HeatView {
                heat: copy_of(h.heat.as_str()),
                stability: copy_of(h.stability.as_str()),
                access_count: h.access_count,
                last_touched: format_dt(h.last_touched),
            },
        ),
        None => None,
    };
    let cluster_view = match cluster {
        Some(c) => {
            let label = match &c.label {
                Some(l) => copy_of(l.as_str()),
                None => copy_of("unlabeled"),
            };
            Some(ClusterView { label, id: id_text(&c.id) })
        },
        None => None,
    };
    MemoryDetailTemplate {
        nav: "memories",
        id: copy_of(id),
        deleted: fact.deleted,
        content: copy_of(fact.content.as_str()),
        tags: copy_texts(&fact.tags),
        confidence: copy_of(fact.confidence.as_str()),
        created_at: format_dt(fact.created_at),
        heat: heat_view,
        cluster: cluster_view,
        edges: views,
        metadata,
    }
}

/// The heat of a memory as text.
pub open spec fn heat_block(h: Option<HeatView>) -> Seq<char> {
    match h {
        Some(v) => "<p>Heat: "@ + crate::debug::html::escape(v.heat@) + "</p><p>Stability: "@
            + crate::debug::html::escape(v.stability@) + "</p><p>Accesses: "@
            + crate::numbers::signed_decimal(v.access_count as int) + "</p><p>Last touched: "@
            + crate::debug::html::escape(v.last_touched@) + "</p>"@,
        None => "<p>No heat record.</p>"@,
    }
}

fn heat_block_html(h: &Option<HeatView>) -> (r: String)
    ensures
        r@ == heat_block(*h),
{
    match h {
        Some(v) => {
            let mut r = copy_of("<p>Heat: ");
            let a = escaped(v.heat.as_str());
            r.append(a.as_str());
            r.append("</p><p>Stability: ");
            let b = escaped(v.stability.as_str());
            r.append(b.as_str());
            r.append("</p><p>Accesses: ");
            let c = signed_text(v.access_count);
            r.append(c.as_str());
            r.append("</p><p>Last touched: ");
            let d = escaped(v.last_touched.as_str());
            r.append(d.as_str());
            r.append("</p>");
            r
        },
        None => copy_of("<p>No heat record.</p>"),
    }
}

/// The cluster of a memory as text: a link and the ID as a badge.
pub open spec fn cluster_block(c: Option<ClusterView>) -> Seq<char> {
    match c {
        Some(v) => "<p><a class=\"link\" href=\"/debug/clusters/"@ + crate::debug::html::url(v.id@)
            + "\">"@ + crate::debug::html::escape(v.label@) + "</a> "@ + crate::debug::html::badge(
            v.id@,
        ) + "</p>"@,
        None => "<p>No cluster.</p>"@,
    }
}

fn cluster_block_html(c: &Option<ClusterView>) -> (r: String)
    ensures
        r@ == cluster_block(*c),
{
    match c {
        Some(v) => {
            let mut r = copy_of("<p><a class=\"link\" href=\"/debug/clusters/");
            let u = crate::debug::html::url_encoded(v.id.as_str());
            r.append(u.as_str());
            r.append("\">");
            let l = escaped(v.label.as_str());
            r.append(l.as_str());
            r.append("</a> ");
            let b = crate::debug::html::badge_html(v.id.as_str());
            r.append(b.as_str());
            r.append("</p>");
            r
        },
        None => copy_of("<p>No cluster.</p>"),
    }
}

impl EdgeView {
    /// The row of an edge as text.
    pub open spec fn html(self) -> Seq<char> {
        "<tr>"@ + crate::debug::html::cell(self.edge_type@) + "<td>"@
            + crate::debug::html::record_link("/debug/memories/"@, self.in_id@) + "</td><td>"@
            + crate::debug::html::record_link("/debug/memories/"@, self.out_id@) + "</td>"@
            + crate::debug::html::cell(self.strength@) + "</tr>"@
    }

    fn render(&self) -> (r: String)
        ensures
            r@ == self.html(),
    {
        let mut r = copy_of("<tr>");
        let t = cell_html(self.edge_type.as_str());
        r.append(t.as_str());
        r.append("<td>");
        let a = record_link_html("/debug/memories/", self.in_id.as_str());
        r.append(a.as_str());
        r.append("</td><td>");
        let b = record_link_html("/debug/memories/", self.out_id.as_str());
        r.append(b.as_str());
        r.append("</td>");
        let s = cell_html(self.strength.as_str());
        r.append(s.as_str());
        r.append("</tr>");
        r
    }
}

/// Rows of edges, one after the other.
pub open spec fn edge_rows(edges: Seq<EdgeView>) -> Seq<char>
    decreases edges.len(),
{
    if edges.len() == 0 {
        seq![]
    } else {
        edge_rows(edges.drop_last()) + edges.last().html()
    }
}

impl MemoryDetailTemplate {
    /// The page as text.
    pub open spec fn html(self) -> Seq<char> {
        crate::debug::html::layout(
            self.nav@,
            "<p><a class=\"link\" href=\"/debug/memories\">← Back to memories</a></p><h1>Memory: "@
                + crate::debug::html::escape(self.id@) + (if self.deleted {
                " <span class=\"badge\">Deleted</span></h1><pre class=\"content-block\">"@
            } else {
                "</h1><pre class=\"content-block\">"@
            }) + crate::debug::html::escape(self.content@) + "</pre><p>Tags: "@
                + crate::debug::html::badges(crate::text::texts(self.tags@)) + "</p><p>Confidence: "@
                + crate::debug::html::escape(self.confidence@) + "</p><p>Created: "@
                + crate::debug::html::escape(self.created_at@)
                + "</p><p><a class=\"link\" href=\"/debug/graph/"@ + crate::debug::html::url(self.id@)
                + "\">Graph</a></p><h2>Heat</h2>"@ + heat_block(self.heat) + "<h2>Cluster</h2>"@
                + cluster_block(self.cluster)
                + "<h2>Edges</h2><table><tr><th>Type</th><th>From</th><th>To</th><th>Strength</th></tr>"@
                + (if self.edges@.len() == 0 {
                "<tr><td colspan=\"4\" class=\"empty\">No edges.</td></tr>"@
            } else {
                edge_rows(self.edges@)
            }) + "</table><h2>Metadata</h2>"@ + (match self.metadata {
                Some(m) => "<pre>"@ + crate::debug::html::escape(m@) + "</pre>"@,
                None => "<p>None</p>"@,
            }),
        )
    }

    /// Renders the page.
    pub fn render(&self) -> (r: String)
        ensures
            r@ == self.html(),
    {
        let mut body = copy_of(
            "<p><a class=\"link\" href=\"/debug/memories\">← Back to memories</a></p><h1>Memory: ",
        );
        let id = escaped(self.id.as_str());
        body.append(id.as_str());
        if self.deleted {
            body.append(" <span class=\"badge\">Deleted</span></h1><pre class=\"content-block\">");
        } else {
            body.append("</h1><pre class=\"content-block\">");
        }
        let content = escaped(self.content.as_str());
        body.append(content.as_str());
        body.append("</pre><p>Tags: ");
        let tags = badges_html(&self.tags);
        body.append(tags.as_str());
        body.append("</p><p>Confidence: ");
        let confidence = escaped(self.confidence.as_str());
        body.append(confidence.as_str());
        body.append("</p><p>Created: ");
        let created = escaped(self.created_at.as_str());
        body.append(created.as_str());
        body.append("</p><p><a class=\"link\" href=\"/debug/graph/");
        let u = crate::debug::html::url_encoded(self.id.as_str());
        body.append(u.as_str());
        body.append("\">Graph</a></p><h2>Heat</h2>");
        let heat = heat_block_html(&self.heat);
        body.append(heat.as_str());
        body.append("<h2>Cluster</h2>");
        let cluster = cluster_block_html(&self.cluster);
        body.append(cluster.as_str());
        body.append(
            "<h2>Edges</h2><table><tr><th>Type</th><th>From</th><th>To</th><th>Strength</th></tr>",
        );
        if self.edges.len() == 0 {
            body.append("<tr><td colspan=\"4\" class=\"empty\">No edges.</td></tr>");
        } else {
            let mut rows = String::new();
            let mut i: usize = 0;
            while i < self.edges.len()
                invariant
                    i <= self.edges@.len(),
                    rows@ == edge_rows(self.edges@.take(i as int)),
                decreases self.edges@.len() - i,
            {
                assert(self.edges@.take(i + 1).drop_last() =~= self.edges@.take(i as int));
                let row = self.edges[i].render();
                rows.append(row.as_str());
                i = i + 1;
            }
            assert(self.edges@.take(self.edges@.len() as int) =~= self.edges@);
            body.append(rows.as_str());
        }
        body.append("</table><h2>Metadata</h2>");
        let meta = match &self.metadata {
            Some(m) => {
                let mut p = copy_of("<pre>");
                let e = escaped(m.as_str());
                p.append(e.as_str());
                p.append("</pre>");
                p
            },
            None => copy_of("<p>None</p>"),
        };
        body.append(meta.as_str());
        layout_html(self.nav, body.as_str())
    }
}

} // verus!
