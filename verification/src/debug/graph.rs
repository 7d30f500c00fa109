//! The graph around a record: its nodes, labels and edges.
use vstd::prelude::*;

use crate::debug::assets::VIS_NETWORK_URL;
use crate::debug::html::{escaped, layout_html, url_encoded};
use crate::debug::styles::{
    edge_styles, legend_html, look_map_text, node_styles, width_list_text, widths,
};
use crate::numbers::{decimal_text, parse_u32};
use crate::text::{collapsed, copy_of, cut_at, same, take_chars, trimmed};

verus! {

/// Node labels are a content snippet this long.
pub const LABEL_MAX_CHARS: usize = 40;

/// Hop radius used when none is asked for.
pub const DEFAULT_HOPS: u32 = 2;

/// Ceiling on the hop radius: memory graphs are dense.
pub const MAX_HOPS: u32 = 3;

/// The most nodes that a graph draws.
pub const MAX_NODES: usize = 200;

/// The hop radius of a raw parameter: what is no number gives the default, and every number is held
/// between one and the ceiling.
pub open spec fn hops_of(raw: Option<Seq<char>>) -> u32 {
    match raw {
        None => DEFAULT_HOPS,
        Some(s) => match crate::numbers::number_of(crate::text::trim(s), u32::MAX as int) {
            Err(_) => DEFAULT_HOPS,
            Ok(n) => if n < 1 {
                1
            } else if n > MAX_HOPS {
                MAX_HOPS
            } else {
                n as u32
            },
        },
    }
}

/// The effective hop radius. No input asks for a wider traversal than the ceiling allows.
pub fn resolve_hops(raw: Option<&str>) -> (r: u32)
    ensures
        r == hops_of(
            match raw {
                Some(s) => Some(s@),
                None => None,
            },
        ),
        1 <= r <= MAX_HOPS,
{
    match raw {
        None => DEFAULT_HOPS,
        Some(s) => {
            let t = trimmed(s);
            match parse_u32(t.as_str()) {
                Err(_) => DEFAULT_HOPS,
                Ok(n) => if n < 1 {
                    1
                } else if n > MAX_HOPS {
                    MAX_HOPS
                } else {
                    n
                },
            }
        },
    }
}

/// The table part of a record ID, or nothing where it has none.
pub open spec fn table_of(id: Seq<char>) -> Seq<char> {
    match crate::text::cut(id, ':') {
        Some((table, _)) => table,
        None => ""@,
    }
}

/// The table part of a record ID.
pub fn node_table_of(id: &str) -> (r: String)
    ensures
        r@ == table_of(id@),
{
    match cut_at(id, ':') {
        Some(p) => p.0,
        None => copy_of(""),
    }
}

/// The first `n` characters of a text, marked where something was dropped.
pub open spec fn preview(s: Seq<char>, n: nat) -> Seq<char> {
    if s.len() > n {
        s.take(n as int) + "…"@
    } else {
        s
    }
}

/// The first `n` characters of `s`, marked where something was dropped.
pub fn preview_text(s: &str, n: usize) -> (r: String)
    ensures
        r@ == preview(s@, n as nat),
{
    let v = crate::text::chars_of(s);
    let mut r = take_chars(s, n);
    if v.len() > n {
        r.append("…");
    }
    r
}

/// The snippet that labels a node: white space collapsed, cut at the label length.
pub open spec fn snippet(content: Seq<char>) -> Seq<char> {
    preview(crate::text::collapse(content), LABEL_MAX_CHARS as nat)
}

/// The snippet that labels a node.
pub fn label_snippet(content: &str) -> (r: String)
    ensures
        r@ == snippet(content@),
{
    let c = collapsed(content);
    preview_text(c.as_str(), LABEL_MAX_CHARS)
}

/// A label is never longer than its limit and the mark.
pub proof fn labels_are_bounded(content: Seq<char>)
    ensures
        snippet(content).len() <= LABEL_MAX_CHARS + 1,
{
    reveal_strlit("…");
}

/// A label fits one line: all the white space in it are single spaces. It is the whole of the collapsed
/// text, or its first characters and the mark, and it is the label of itself.
pub proof fn labels_fit_one_line(content: Seq<char>)
    ensures
        forall|i: int|
            0 <= i < snippet(content).len() && crate::text::is_space(#[trigger] snippet(content)[i])
                ==> snippet(content)[i] == ' ',
        forall|i: int, j: int|
            0 <= i < snippet(content).len() && j == i + 1 && j < snippet(content).len() ==> !(
            crate::text::is_space(#[trigger] snippet(content)[i]) && crate::text::is_space(
                #[trigger] snippet(content)[j],
            )),
        crate::text::collapse(content).len() <= LABEL_MAX_CHARS ==> snippet(content)
            == crate::text::collapse(content),
        crate::text::collapse(content).len() > LABEL_MAX_CHARS ==> snippet(content)
            == crate::text::collapse(content).take(LABEL_MAX_CHARS as int) + "…"@,
        snippet(snippet(content)) == snippet(content),
{
    reveal_strlit("…");
    let c = crate::text::collapse(content);
    let r = snippet(content);
    let n = LABEL_MAX_CHARS as int;
    crate::text::lemma_collapse_is_one_line(content);
    if c.len() > n {
        assert(r.last() == '…');
        assert(r[0] == c[0]);
        assert forall|i: int| 0 <= i < r.len() && crate::text::is_space(#[trigger] r[i]) implies r[i]
            == ' ' by {
            assert(r[i] == c[i]);
        }
        assert forall|i: int, j: int|
            0 <= i < r.len() && j == i + 1 && j < r.len() implies !(crate::text::is_space(
            #[trigger] r[i],
        ) && crate::text::is_space(#[trigger] r[j])) by {
            if j < n {
                assert(r[i] == c[i]);
                assert(r[j] == c[j]);
            }
        }
        crate::text::lemma_one_line_is_kept(r);
        assert(r.take(n) =~= c.take(n));
    } else {
        crate::text::lemma_one_line_is_kept(c);
    }
}

/// What a node's tooltip says: everything that the short label gives up.
pub open spec fn tooltip(id: Seq<char>, hop: u32) -> Seq<char> {
    let table = table_of(id);
    let kind = if table.len() == 0 {
        "node"@
    } else {
        table
    };
    id + " — "@ + kind + ", hop "@ + crate::numbers::decimal(hop as nat)
}

/// A node's tooltip.
pub fn node_tooltip(id: &str, hop: u32) -> (r: String)
    ensures
        r@ == tooltip(id@, hop),
{
    let table = node_table_of(id);
    let kind = if table.as_str().is_empty() {
        copy_of("node")
    } else {
        table
    };
    let mut r = copy_of(id);
    r.append(" — ");
    r.append(kind.as_str());
    r.append(", hop ");
    let n = decimal_text(hop as u64);
    r.append(n.as_str());
    r
}

// ---------------------------------------------------------------------------
// Nodes
// ---------------------------------------------------------------------------
/// A record that a path of some length leads to.
#[derive(Debug)]
pub struct Neighbor {
    pub id: String,
    pub hop: u32,
}

/// The drawn records: the centre, then every other in the order in which it is first reached.
pub open spec fn node_ids(centre: Seq<char>, reached: Seq<Neighbor>) -> Seq<Seq<char>>
    decreases reached.len(),
{
    if reached.len() == 0 {
        seq![centre]
    } else {
        let before = node_ids(centre, reached.drop_last());
        if before.contains(reached.last().id@) {
            before
        } else {
            before.push(reached.last().id@)
        }
    }
}

/// The length of the shortest path to a record, or nothing where none leads to it.
pub open spec fn shortest(reached: Seq<Neighbor>, id: Seq<char>) -> Option<u32>
    decreases reached.len(),
{
    if reached.len() == 0 {
        None
    } else {
        let before = shortest(reached.drop_last(), id);
        if reached.last().id@ == id {
            match before {
                Some(h) => if h <= reached.last().hop {
                    Some(h)
                } else {
                    Some(reached.last().hop)
                },
                None => Some(reached.last().hop),
            }
        } else {
            before
        }
    }
}

/// How far a drawn record is from the centre.
pub open spec fn distance(centre: Seq<char>, reached: Seq<Neighbor>, id: Seq<char>) -> u32 {
    if id == centre {
        0
    } else {
        match shortest(reached, id) {
            Some(h) => h,
            None => 0,
        }
    }
}

/// No record is drawn twice; the centre comes first, and besides it exactly what was reached is drawn.
pub proof fn nodes_are_distinct(centre: Seq<char>, reached: Seq<Neighbor>)
    ensures
        node_ids(centre, reached).no_duplicates(),
        node_ids(centre, reached).len() >= 1,
        node_ids(centre, reached)[0] == centre,
        forall|id: Seq<char>| #[trigger]
            node_ids(centre, reached).contains(id) <==> id == centre || shortest(reached, id) is Some,
    decreases reached.len(),
{
    let all = node_ids(centre, reached);
    if reached.len() == 0 {
        assert(all[0] == centre);
    } else {
        nodes_are_distinct(centre, reached.drop_last());
        let before = node_ids(centre, reached.drop_last());
        let last = reached.last().id@;
        assert forall|id: Seq<char>| #[trigger] all.contains(id) <==> id == centre || shortest(
            reached,
            id,
        ) is Some by {
            assert(before.contains(id) <==> id == centre || shortest(
                reached.drop_last(),
                id,
            ) is Some);
            if !before.contains(last) {
                if before.contains(id) {
                    let k = choose|k: int| 0 <= k < before.len() && before[k] == id;
                    assert(all[k] == id);
                }
                if id == last {
                    assert(all[before.len() as int] == id);
                }
                if all.contains(id) && id != last {
                    let k = choose|k: int| 0 <= k < all.len() && all[k] == id;
                    assert(before[k] == id);
                }
            }
        }
    }
}

/// The distance is the shortest of the reported ones: a record reported on several paths keeps the
/// closest.
pub proof fn distances_are_shortest(reached: Seq<Neighbor>, id: Seq<char>, k: int)
    requires
        0 <= k < reached.len(),
        reached[k].id@ == id,
    ensures
        shortest(reached, id) matches Some(h) && h <= reached[k].hop,
    decreases reached.len(),
{
    if k < reached.len() - 1 {
        distances_are_shortest(reached.drop_last(), id, k);
    }
}

/// The drawn nodes with their distances.
#[derive(Debug)]
pub struct NodeSet {
    pub ids: Vec<String>,
    pub hops: Vec<u32>,
}

fn position_of(ids: &Vec<String>, id: &str) -> (r: Option<usize>)
    ensures
        match r {
            Some(i) => i < ids@.len() && ids@[i as int]@ == id@,
            None => !crate::text::texts(ids@).contains(id@),
        },
        r is Some <==> crate::text::texts(ids@).contains(id@),
{
    let mut i: usize = 0;
    while i < ids.len()
        invariant
            i <= ids@.len(),
            forall|k: int| 0 <= k < i ==> (#[trigger] ids@[k])@ != id@,
        decreases ids@.len() - i,
    {
        if same(ids[i].as_str(), id) {
            assert(crate::text::texts(ids@)[i as int] == id@);
            return Some(i);
        }
        i = i + 1;
    }
    proof {
        if crate::text::texts(ids@).contains(id@) {
            let k = choose|k: int|
                0 <= k < crate::text::texts(ids@).len() && crate::text::texts(ids@)[k] == id@;
            assert(ids@[k]@ == id@);
        }
    }
    None
}

/// Collects the nodes of a graph: the centre and everything that was reached, each once.
pub fn collect_nodes(centre: &str, reached: &Vec<Neighbor>) -> (r: NodeSet)
    ensures
        crate::text::texts(r.ids@) == node_ids(centre@, reached@),
        r.hops@.len() == r.ids@.len(),
        forall|i: int|
            0 <= i < r.ids@.len() ==> (#[trigger] r.hops@[i]) == distance(
                centre@,
                reached@,
                r.ids@[i]@,
            ),
{
    let mut ids: Vec<String> = Vec::new();
    let mut hops: Vec<u32> = Vec::new();
    ids.push(copy_of(centre));
    hops.push(0);
    assert(crate::text::texts(ids@) =~= node_ids(centre@, reached@.take(0)));
    let mut k: usize = 0;
    while k < reached.len()
        invariant
            k <= reached@.len(),
            hops@.len() == ids@.len(),
            crate::text::texts(ids@) == node_ids(centre@, reached@.take(k as int)),
            forall|i: int|
                0 <= i < ids@.len() ==> (#[trigger] hops@[i]) == distance(
                    centre@,
                    reached@.take(k as int),
                    ids@[i]@,
                ),
        decreases reached@.len() - k,
    {
        let n = &reached[k];
        let ghost prior = reached@.take(k as int);
        let ghost now = reached@.take(k + 1);
        proof {
            assert(now.drop_last() =~= prior);
            assert(now.last() == reached@[k as int]);
            nodes_are_distinct(centre@, prior);
            nodes_are_distinct(centre@, now);
        }
        let ghost ids0 = ids@;
        match position_of(&ids, n.id.as_str()) {
            Some(at) => {
                let h = hops[at];
                proof {
                    assert(node_ids(centre@, prior).contains(n.id@));
                }
                if n.hop < h {
                    hops.set(at, n.hop);
                }
                proof {
                    assert forall|i: int| 0 <= i < ids@.len() implies (#[trigger] hops@[i])
                        == distance(centre@, now, ids@[i]@) by {
                        assert(crate::text::texts(ids@)[i] == ids@[i]@);
                        if ids@[i]@ == n.id@ {
                            assert(crate::text::texts(ids@)[at as int] == ids@[at as int]@);
                            assert(i == at);
                        }
                    }
                }
            },
            None => {
                let id = copy_of(n.id.as_str());
                proof {
                    crate::text::lemma_texts_push(ids@, id);
                    assert(!node_ids(centre@, prior).contains(n.id@));
                    assert(centre@ == node_ids(centre@, prior)[0]);
                }
                ids.push(id);
                hops.push(n.hop);
                proof {
                    assert forall|i: int| 0 <= i < ids@.len() implies (#[trigger] hops@[i])
                        == distance(centre@, now, ids@[i]@) by {
                        if i < ids0.len() {
                            assert(crate::text::texts(ids0)[i] == ids0[i]@);
                            assert(ids0[i]@ != n.id@);
                        }
                    }
                }
            },
        }
        k = k + 1;
    }
    assert(reached@.take(reached@.len() as int) =~= reached@);
    NodeSet { ids, hops }
}

/// A graph within its bound, and whether some of its nodes were left out.
#[derive(Debug)]
pub struct BoundedNodes {
    pub nodes: NodeSet,
    pub truncated: bool,
}

/// Keeps the first nodes of a graph up to the bound, the centre among them, and tells where more were
/// reached.
pub fn bound_nodes(nodes: NodeSet) -> (r: BoundedNodes)
    requires
        nodes.hops@.len() == nodes.ids@.len(),
    ensures
        r.truncated == (nodes.ids@.len() > MAX_NODES),
        r.nodes.ids@ == crate::ranking::first_of(nodes.ids@, MAX_NODES as nat),
        r.nodes.hops@ == crate::ranking::first_of(nodes.hops@, MAX_NODES as nat),
        r.nodes.hops@.len() == r.nodes.ids@.len(),
        r.truncated <==> nodes.ids@.len() > 200,
        !r.truncated ==> r.nodes.ids@ == nodes.ids@,
        r.truncated ==> r.nodes.ids@.len() == 200,
        forall|i: int|
            0 <= i < r.nodes.ids@.len() ==> #[trigger] r.nodes.ids@[i] == nodes.ids@[i]
                && r.nodes.hops@[i] == nodes.hops@[i],
{
    let truncated = nodes.ids.len() > MAX_NODES;
    let mut ids = nodes.ids;
    let mut hops = nodes.hops;
    if truncated {
        ids.truncate(MAX_NODES);
        hops.truncate(MAX_NODES);
    }
    BoundedNodes { nodes: NodeSet { ids, hops }, truncated }
}

/// A bounded graph still shows its centre, and draws nothing that was not reached.
pub proof fn the_centre_is_always_drawn(centre: Seq<char>, reached: Seq<Neighbor>)
    ensures
        ({
            let drawn = crate::ranking::first_of(node_ids(centre, reached), MAX_NODES as nat);
            &&& 1 <= drawn.len() <= MAX_NODES
            &&& drawn[0] == centre
            &&& forall|i: int|
                0 <= i < drawn.len() ==> #[trigger] drawn[i] == node_ids(centre, reached)[i]
        }),
{
    lemma_centre_first(centre, reached);
}

proof fn lemma_centre_first(centre: Seq<char>, reached: Seq<Neighbor>)
    ensures
        node_ids(centre, reached).len() >= 1,
        node_ids(centre, reached)[0] == centre,
    decreases reached.len(),
{
    if reached.len() > 0 {
        lemma_centre_first(centre, reached.drop_last());
    }
}

/// The positions of the nodes whose content can be looked up, among the first `n`: the facts.
pub open spec fn fact_positions(ids: Seq<Seq<char>>, n: nat) -> Seq<int>
    decreases n,
{
    if n == 0 {
        seq![]
    } else {
        let before = fact_positions(ids, (n - 1) as nat);
        if table_of(ids[n - 1]) == "fact"@ {
            before.push(n - 1)
        } else {
            before
        }
    }
}

/// Which nodes have content to look up.
pub fn facts_among(ids: &Vec<String>) -> (r: Vec<usize>)
    ensures
        crate::ranking::positions(r@) == fact_positions(crate::text::texts(ids@), ids@.len()),
{
    let mut r: Vec<usize> = Vec::new();
    let mut k: usize = 0;
    assert(crate::ranking::positions(r@) =~= seq![]);
    while k < ids.len()
        invariant
            k <= ids@.len(),
            crate::ranking::positions(r@) == fact_positions(crate::text::texts(ids@), k as nat),
        decreases ids@.len() - k,
    {
        let table = node_table_of(ids[k].as_str());
        assert(crate::text::texts(ids@)[k as int] == ids@[k as int]@);
        if same(table.as_str(), "fact") {
            assert(crate::ranking::positions(r@.push(k)) =~= crate::ranking::positions(r@).push(
                k as int,
            ));
            r.push(k);
        }
        k = k + 1;
    }
    r
}

/// A drawn node.
#[derive(Debug)]
pub struct GraphNode {
    pub id: String,
    pub label: String,
    pub table: String,
    pub hop: u32,
    pub title: String,
}

/// Whether a node shows a record: labelled by what it says, or by its ID where it has no content.
pub open spec fn shows_node(n: GraphNode, id: Seq<char>, hop: u32, content: Option<Seq<char>>) -> bool {
    &&& n.id@ == id
    &&& n.label@ == (match content {
        Some(text) => snippet(text),
        None => id,
    })
    &&& n.table@ == table_of(id)
    &&& n.hop == hop
    &&& n.title@ == tooltip(id, hop)
}

/// Draws the nodes, given the content of those that have some.
pub fn draw_nodes(nodes: &NodeSet, content: &Vec<Option<String>>) -> (r: Vec<GraphNode>)
    requires
        nodes.hops@.len() == nodes.ids@.len(),
        content@.len() == nodes.ids@.len(),
    ensures
        r@.len() == nodes.ids@.len(),
        forall|i: int|
            0 <= i < r@.len() ==> shows_node(
                #[trigger] r@[i],
                nodes.ids@[i]@,
                nodes.hops@[i],
                crate::text::opt_text(content@[i]),
            ),
{
    let mut r: Vec<GraphNode> = Vec::new();
    let mut i: usize = 0;
    while i < nodes.ids.len()
        invariant
            i <= nodes.ids@.len(),
            nodes.hops@.len() == nodes.ids@.len(),
            content@.len() == nodes.ids@.len(),
            r@.len() == i,
            forall|k: int|
                0 <= k < i ==> shows_node(
                    #[trigger] r@[k],
                    nodes.ids@[k]@,
                    nodes.hops@[k],
                    crate::text::opt_text(content@[k]),
                ),
        decreases nodes.ids@.len() - i,
    {
        let id = nodes.ids[i].as_str();
        let hop = nodes.hops[i];
        let label = match &content[i] {
            Some(text) => label_snippet(text.as_str()),
            None => copy_of(id),
        };
        let n = GraphNode {
            id: copy_of(id),
            label,
            table: node_table_of(id),
            hop,
            title: node_tooltip(id, hop),
        };
        r.push(n);
        i = i + 1;
    }
    r
}

// ---------------------------------------------------------------------------
// Edges
// ---------------------------------------------------------------------------
/// A stored edge; an end that is missing is empty.
#[derive(Debug)]
pub struct EdgeRow {
    pub from: String,
    pub to: String,
    pub edge_type: String,
}

/// Whether two edges have the same ends and type.
pub open spec fn same_edge(a: EdgeRow, b: EdgeRow) -> bool {
    a.from@ == b.from@ && a.to@ == b.to@ && a.edge_type@ == b.edge_type@
}

/// Whether one of the edges at some positions is the same as `e`.
pub open spec fn drawn_already(rows: Seq<EdgeRow>, at: Seq<int>, e: EdgeRow) -> bool {
    exists|i: int| 0 <= i < at.len() && same_edge(rows[#[trigger] at[i]], e)
}

/// The positions of the drawn edges among the first `n` stored ones: those between two drawn nodes,
/// each once.
pub open spec fn drawn_edges(rows: Seq<EdgeRow>, ids: Seq<Seq<char>>, n: nat) -> Seq<int>
    decreases n,
{
    if n == 0 {
        seq![]
    } else {
        let before = drawn_edges(rows, ids, (n - 1) as nat);
        let e = rows[n - 1];
        if ids.contains(e.from@) && ids.contains(e.to@) && !drawn_already(rows, before, e) {
            before.push(n - 1)
        } else {
            before
        }
    }
}

/// Every drawn edge joins two drawn nodes, and no two drawn edges are the same.
pub proof fn edges_join_drawn_nodes_once(rows: Seq<EdgeRow>, ids: Seq<Seq<char>>, n: nat)
    requires
        n <= rows.len(),
    ensures
        forall|i: int|
            0 <= i < drawn_edges(rows, ids, n).len() ==> {
                let k = #[trigger] drawn_edges(rows, ids, n)[i];
                0 <= k < n && ids.contains(rows[k].from@) && ids.contains(rows[k].to@)
            },
        forall|i: int, j: int|
            0 <= i < j < drawn_edges(rows, ids, n).len() ==> !same_edge(
                rows[#[trigger] drawn_edges(rows, ids, n)[i]],
                rows[#[trigger] drawn_edges(rows, ids, n)[j]],
            ),
    decreases n,
{
    if n > 0 {
        edges_join_drawn_nodes_once(rows, ids, (n - 1) as nat);
        let all = drawn_edges(rows, ids, n);
        let before = drawn_edges(rows, ids, (n - 1) as nat);
        assert forall|i: int| 0 <= i < all.len() implies {
            let k = #[trigger] all[i];
            0 <= k < n && ids.contains(rows[k].from@) && ids.contains(rows[k].to@)
        } by {
            if i < before.len() {
                assert(all[i] == before[i]);
            }
        }
        assert forall|i: int, j: int| 0 <= i < j < all.len() implies !same_edge(
            rows[#[trigger] all[i]],
            rows[#[trigger] all[j]],
        ) by {
            assert(all[i] == before[i]);
            if j < before.len() {
                assert(all[j] == before[j]);
            } else {
                assert(!drawn_already(rows, before, rows[n - 1]));
            }
        }
    }
}

/// Chooses the edges to draw, as positions among the stored ones.
pub fn draw_edges(rows: &Vec<EdgeRow>, ids: &Vec<String>) -> (r: Vec<usize>)
    ensures
        crate::ranking::positions(r@) == drawn_edges(
            rows@,
            crate::text::texts(ids@),
            rows@.len(),
        ),
{
    let mut r: Vec<usize> = Vec::new();
    let mut k: usize = 0;
    assert(crate::ranking::positions(r@) =~= seq![]);
    while k < rows.len()
        invariant
            k <= rows@.len(),
            crate::ranking::positions(r@) == drawn_edges(
                rows@,
                crate::text::texts(ids@),
                k as nat,
            ),
            forall|i: int| 0 <= i < r@.len() ==> (#[trigger] r@[i]) < k,
        decreases rows@.len() - k,
    {
        let e = &rows[k];
        let ghost at = crate::ranking::positions(r@);
        let joins = position_of(ids, e.from.as_str()).is_some() && position_of(
            ids,
            e.to.as_str(),
        ).is_some();
        if joins {
            let mut seen = false;
            let mut i: usize = 0;
            while i < r.len()
                invariant
                    i <= r@.len(),
                    k < rows@.len(),
                    *e == rows@[k as int],
                    at == crate::ranking::positions(r@),
                    forall|m: int| 0 <= m < r@.len() ==> (#[trigger] r@[m]) < k,
                    seen == exists|m: int| 0 <= m < i && same_edge(rows@[#[trigger] at[m]], *e),
                decreases r@.len() - i,
            {
                let d = &rows[r[i]];
                assert(at[i as int] == r@[i as int] as int);
                if same(d.from.as_str(), e.from.as_str()) && same(d.to.as_str(), e.to.as_str())
                    && same(d.edge_type.as_str(), e.edge_type.as_str()) {
                    assert(same_edge(rows@[at[i as int]], *e));
                    seen = true;
                }
                i = i + 1;
            }
            if !seen {
                assert(crate::ranking::positions(r@.push(k)) =~= at.push(k as int));
                r.push(k);
            }
        }
        k = k + 1;
    }
    r
}

// ---------------------------------------------------------------------------
// The page
// ---------------------------------------------------------------------------
/// The page that draws the neighbourhood of a node.
#[derive(Debug)]
pub struct GraphTemplate {
    pub nav: &'static str,
    pub id: String,
    pub hops: u32,
}

/// The page of a node, within the radius that is asked for. It belongs to the memories.
pub fn page(id: &str, hops: Option<&str>) -> (r: GraphTemplate)
    ensures
        r.nav@ == "memories"@,
        r.id@ == id@,
        r.hops == hops_of(
            match hops {
                Some(s) => Some(s@),
                None => None,
            },
        ),
        1 <= r.hops <= MAX_HOPS,
{
    GraphTemplate { nav: "memories", id: copy_of(id), hops: resolve_hops(hops) }
}

/// A link to the page with another radius.
pub open spec fn hop_link(id: Seq<char>, hops: Seq<char>) -> Seq<char> {
    "<a class=\"link\" href=\"/debug/graph/"@ + crate::debug::html::url(id) + "?hops="@ + hops + "\">"@
        + hops + "</a> "@
}

fn hop_link_html(id: &str, hops: &str) -> (r: String)
    ensures
        r@ == hop_link(id@, hops@),
{
    let mut r = copy_of("<a class=\"link\" href=\"/debug/graph/");
    let u = url_encoded(id);
    r.append(u.as_str());
    r.append("?hops=");
    r.append(hops);
    r.append("\">");
    r.append(hops);
    r.append("</a> ");
    r
}

impl GraphTemplate {
    /// The page as text. The ID is escaped in the heading and percent-encoded in addresses, also within
    /// the script; the library is loaded before the script that uses it. The script draws by the maps that
    /// the legend explains.
    pub open spec fn html(self) -> Seq<char> {
        crate::debug::html::layout(
            self.nav@,
            "<h1>Graph: "@ + crate::debug::html::escape(self.id@) + "</h1><p>Hops: "@ + hop_link(
                self.id@,
                "1"@,
            ) + hop_link(self.id@, "2"@) + hop_link(self.id@, "3"@)
                + "</p><p id=\"note\"></p><div id=\"graph\" style=\"height: 600px\"></div>"@
                + crate::debug::styles::legend(
                crate::debug::styles::node_looks(),
                crate::debug::styles::edge_looks(),
                crate::debug::styles::edge_widths(),
            ) + "<script src=\""@
                + crate::debug::assets::VIS_NETWORK_URL@
                + "\"></script><script>(async () => { const reply = await fetch(\"/debug/api/graph/"@ + crate::debug::html::url(self.id@)
                + "?hops="@ + crate::numbers::decimal(self.hops as nat)
                + "\"); const data = await reply.json(); const nodeLooks = new Map(["@
                + crate::debug::styles::look_map(crate::debug::styles::node_looks())
                + "]); const edgeLooks = new Map(["@ + crate::debug::styles::look_map(
                crate::debug::styles::edge_looks(),
            ) + "]); const widths = ["@ + crate::debug::styles::width_list(
                crate::debug::styles::edge_widths(),
            )
                + "]; const nodes = data.nodes.map((n) => { const look = nodeLooks.get(n.table) || nodeLooks.get(\"other\"); return { ...n, color: look.color, shape: look.form }; }); const edges = data.edges.map((e) => { const look = edgeLooks.get(e.edge_type) || edgeLooks.get(\"other\"); const width = widths.find((w) => e.strength >= w[0]) || widths[widths.length - 1]; return { ...e, color: look.color, dashes: look.form === \"dashed\", width: width[1] }; }); if (data.truncated) { document.getElementById(\"note\").textContent = \"Too many nodes: only the first are drawn.\"; } const network = new vis.Network(document.getElementById(\"graph\"), { nodes: new vis.DataSet(nodes), edges: new vis.DataSet(edges) }, {}); network.on(\"click\", (event) => { const node = data.nodes.find((n) => n.id === event.nodes[0]); if (node && node.table === \"fact\") { window.location = \"/debug/memories/\" + encodeURIComponent(node.id); } }); })();</script>"@,
        )
    }

    /// Renders the page.
    pub fn render(&self) -> (r: String)
        ensures
            r@ == self.html(),
    {
        let mut body = copy_of("<h1>Graph: ");
        let id = escaped(self.id.as_str());
        body.append(id.as_str());
        body.append("</h1><p>Hops: ");
        let one = hop_link_html(self.id.as_str(), "1");
        body.append(one.as_str());
        let two = hop_link_html(self.id.as_str(), "2");
        body.append(two.as_str());
        let three = hop_link_html(self.id.as_str(), "3");
        body.append(three.as_str());
        body.append("</p><p id=\"note\"></p><div id=\"graph\" style=\"height: 600px\"></div>");
        let node_list = node_styles();
        let edge_list = edge_styles();
        let width_bands = widths();
        let legend = legend_html(&node_list, &edge_list, &width_bands);
        body.append(legend.as_str());
        body.append("<script src=\"");
        body.append(VIS_NETWORK_URL);
        body.append("\"></script><script>(async () => { const reply = await fetch(\"/debug/api/graph/");
        let u = url_encoded(self.id.as_str());
        body.append(u.as_str());
        body.append("?hops=");
        let h = decimal_text(self.hops as u64);
        body.append(h.as_str());
        body.append("\"); const data = await reply.json(); const nodeLooks = new Map([");
        let node_map = look_map_text(&node_list);
        body.append(node_map.as_str());
        body.append("]); const edgeLooks = new Map([");
        let edge_map = look_map_text(&edge_list);
        body.append(edge_map.as_str());
        body.append("]); const widths = [");
        let width_entries = width_list_text(&width_bands);
        body.append(width_entries.as_str());
        body.append(
            "]; const nodes = data.nodes.map((n) => { const look = nodeLooks.get(n.table) || nodeLooks.get(\"other\"); return { ...n, color: look.color, shape: look.form }; }); const edges = data.edges.map((e) => { const look = edgeLooks.get(e.edge_type) || edgeLooks.get(\"other\"); const width = widths.find((w) => e.strength >= w[0]) || widths[widths.length - 1]; return { ...e, color: look.color, dashes: look.form === \"dashed\", width: width[1] }; }); if (data.truncated) { document.getElementById(\"note\").textContent = \"Too many nodes: only the first are drawn.\"; } const network = new vis.Network(document.getElementById(\"graph\"), { nodes: new vis.DataSet(nodes), edges: new vis.DataSet(edges) }, {}); network.on(\"click\", (event) => { const node = data.nodes.find((n) => n.id === event.nodes[0]); if (node && node.table === \"fact\") { window.location = \"/debug/memories/\" + encodeURIComponent(node.id); } }); })();</script>",
        );
        layout_html(self.nav, body.as_str())
    }
}

} // verus!
