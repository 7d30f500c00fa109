//! What the graph is for: the neighbourhood of a record, each record and edge once, at its true distance.
use vstd::prelude::*;

use crate::debug::graph::{
    distance, drawn_edges, fact_positions, hops_of, node_ids, nodes_are_distinct, preview, same_edge,
    shortest, shows_node, table_of, EdgeRow, GraphNode, Neighbor,
};
use crate::debug::paging::{next_offset, number_or, prev_offset, showing};
use crate::laws::text::a_cut_parts_the_text;
use crate::numbers::{decimal, number_of};
use crate::text::{collapse, cut, trim};

verus! {

/// A radius from one to three is taken as it is asked for, a number beyond is held to that range, and what
/// is no number, or nothing, means two.
pub proof fn a_radius_is_held_between_one_and_three(raw: Option<Seq<char>>)
    ensures
        raw is None ==> hops_of(raw) == 2,
        raw matches Some(s) ==> match number_of(trim(s), u32::MAX as int) {
            Ok(n) => if n < 1 {
                hops_of(raw) == 1
            } else if n > 3 {
                hops_of(raw) == 3
            } else {
                hops_of(raw) == n
            },
            Err(_) => hops_of(raw) == 2,
        },
{
}

/// The table of a record is what stands before the first colon of its ID.
pub proof fn a_table_stands_before_the_colon(table: Seq<char>, key: Seq<char>, bare: Seq<char>)
    requires
        !table.contains(':'),
        !bare.contains(':'),
    ensures
        table_of(table + seq![':'] + key) == table,
        table_of(bare).len() == 0,
{
    let id = table + seq![':'] + key;
    a_cut_parts_the_text(id, ':');
    a_cut_parts_the_text(bare, ':');
    reveal_strlit("");
    assert(id[table.len() as int] == ':');
    assert(id.contains(':'));
    let (a, b) = cut(id, ':')->0;
    if a.len() < table.len() {
        assert(id[a.len() as int] == ':');
        assert(table[a.len() as int] == ':');
    }
    if a.len() > table.len() {
        assert(a[table.len() as int] == ':');
    }
    assert(a =~= table);
    if let Some((x, y)) = cut(bare, ':') {
        assert(bare[x.len() as int] == ':');
    }
}

proof fn lemma_shortest(reached: Seq<Neighbor>, id: Seq<char>)
    ensures
        shortest(reached, id) is None <==> (forall|k: int|
            0 <= k < reached.len() ==> (#[trigger] reached[k]).id@ != id),
        shortest(reached, id) matches Some(h) ==> {
            &&& exists|k: int|
                0 <= k < reached.len() && (#[trigger] reached[k]).id@ == id && reached[k].hop == h
            &&& forall|k: int|
                0 <= k < reached.len() && (#[trigger] reached[k]).id@ == id ==> h <= reached[k].hop
        },
    decreases reached.len(),
{
    if reached.len() > 0 {
        let front = reached.drop_last();
        let last = reached.len() - 1;
        lemma_shortest(front, id);
        assert forall|k: int| 0 <= k < front.len() implies #[trigger] front[k] == reached[k] by {}
        if let Some(h) = shortest(front, id) {
            let k = choose|k: int|
                0 <= k < front.len() && (#[trigger] front[k]).id@ == id && front[k].hop == h;
            assert(reached[k].id@ == id);
        }
        if shortest(reached, id) is None {
            assert forall|k: int| 0 <= k < reached.len() implies (#[trigger] reached[k]).id@
                != id by {
                if k < last {
                    assert(front[k].id@ != id);
                }
            }
        }
        if let Some(h) = shortest(reached, id) {
            assert forall|k: int|
                0 <= k < reached.len() && (#[trigger] reached[k]).id@ == id implies h
                <= reached[k].hop by {
                if k < last {
                    assert(front[k].id@ == id);
                }
            }
            if shortest(front, id) != Some(h) {
                assert(reached[last].id@ == id && reached[last].hop == h);
            }
        }
    }
}

/// Every record that was reached is drawn, once, and nothing else but the centre, which comes first. Each
/// is as far away as the shortest path that led to it.
pub proof fn what_was_reached_is_drawn(centre: Seq<char>, reached: Seq<Neighbor>, k: int)
    requires
        0 <= k < reached.len(),
    ensures
        node_ids(centre, reached)[0] == centre,
        node_ids(centre, reached).contains(reached[k].id@),
        node_ids(centre, reached).no_duplicates(),
        forall|i: int|
            0 < i < node_ids(centre, reached).len() ==> exists|j: int|
                0 <= j < reached.len() && (#[trigger] reached[j]).id@ == #[trigger] node_ids(
                    centre,
                    reached,
                )[i],
        distance(centre, reached, centre) == 0,
        reached[k].id@ != centre ==> {
            let d = distance(centre, reached, reached[k].id@);
            &&& d <= reached[k].hop
            &&& exists|j: int|
                0 <= j < reached.len() && (#[trigger] reached[j]).id@ == reached[k].id@
                    && reached[j].hop == d
        },
{
    let id = reached[k].id@;
    let ids = node_ids(centre, reached);
    nodes_are_distinct(centre, reached);
    lemma_shortest(reached, id);
    assert forall|i: int| 0 < i < ids.len() implies exists|j: int|
        0 <= j < reached.len() && (#[trigger] reached[j]).id@ == #[trigger] ids[i] by {
        assert(ids.contains(ids[i]));
        lemma_shortest(reached, ids[i]);
        assert(ids[i] != ids[0]);
    }
}

/// Records are drawn in the order in which they were first reached: node `i + 1` was first reached at
/// `at[i]`. So where a graph is cut short, what was reached first stays.
pub proof fn what_is_reached_first_is_drawn_first(centre: Seq<char>, reached: Seq<Neighbor>) -> (at: Seq<
    int,
>)
    ensures
        node_ids(centre, reached).len() == at.len() + 1,
        forall|i: int|
            0 <= i < at.len() ==> {
                &&& 0 <= #[trigger] at[i] < reached.len()
                &&& reached[at[i]].id@ == node_ids(centre, reached)[i + 1]
                &&& forall|k: int| 0 <= k < at[i] ==> (#[trigger] reached[k]).id@ != reached[at[i]].id@
            },
        forall|i: int, j: int| 0 <= i < j < at.len() ==> #[trigger] at[i] < #[trigger] at[j],
    decreases reached.len(),
{
    if reached.len() == 0 {
        seq![]
    } else {
        let front = reached.drop_last();
        let last = reached.len() - 1;
        let id = reached[last].id@;
        let before = node_ids(centre, front);
        let seen = what_is_reached_first_is_drawn_first(centre, front);
        assert forall|k: int| 0 <= k < front.len() implies #[trigger] front[k] == reached[k] by {}
        assert forall|i: int| 0 <= i < seen.len() implies {
            &&& 0 <= #[trigger] seen[i] < last
            &&& reached[seen[i]].id@ == before[i + 1]
            &&& forall|k: int| 0 <= k < seen[i] ==> (#[trigger] reached[k]).id@ != reached[seen[i]].id@
        } by {
            assert(front[seen[i]].id@ == before[i + 1]);
            assert forall|k: int| 0 <= k < seen[i] implies (#[trigger] reached[k]).id@
                != reached[seen[i]].id@ by {
                assert(front[k].id@ != front[seen[i]].id@);
            }
        }
        if before.contains(id) {
            seen
        } else {
            let at = seen.push(last);
            nodes_are_distinct(centre, front);
            assert forall|k: int| 0 <= k < last implies (#[trigger] reached[k]).id@ != id by {
                lemma_shortest(front, reached[k].id@);
                assert(front[k].id@ == reached[k].id@);
                assert(before.contains(reached[k].id@));
            }
            assert forall|i: int| 0 <= i < at.len() implies {
                &&& 0 <= #[trigger] at[i] < reached.len()
                &&& reached[at[i]].id@ == node_ids(centre, reached)[i + 1]
                &&& forall|k: int| 0 <= k < at[i] ==> (#[trigger] reached[k]).id@ != reached[at[i]].id@
            } by {
                if i < seen.len() {
                    assert(at[i] == seen[i]);
                }
            }
            at
        }
    }
}

/// The nodes with content to look up are exactly the facts, in order.
pub proof fn facts_are_looked_up(ids: Seq<Seq<char>>, n: nat)
    ensures
        forall|i: int|
            0 <= i < n ==> (#[trigger] fact_positions(ids, n).contains(i) <==> table_of(ids[i])
                == "fact"@),
        forall|x: int|
            0 <= x < fact_positions(ids, n).len() ==> 0 <= #[trigger] fact_positions(ids, n)[x] < n,
        forall|x: int, y: int|
            0 <= x < y < fact_positions(ids, n).len() ==> #[trigger] fact_positions(ids, n)[x]
                < #[trigger] fact_positions(ids, n)[y],
    decreases n,
{
    if n > 0 {
        let m = (n - 1) as nat;
        facts_are_looked_up(ids, m);
        let before = fact_positions(ids, m);
        let all = fact_positions(ids, n);
        assert forall|i: int| 0 <= i < n implies (#[trigger] all.contains(i) <==> table_of(ids[i])
            == "fact"@) by {
            if i < m {
                if before.contains(i) {
                    let x = choose|x: int| 0 <= x < before.len() && before[x] == i;
                    assert(all[x] == i);
                }
                if all.contains(i) {
                    let x = choose|x: int| 0 <= x < all.len() && all[x] == i;
                    assert(before[x] == i);
                }
            } else if table_of(ids[i]) == "fact"@ {
                assert(all[before.len() as int] == i);
            } else if all.contains(i) {
                let x = choose|x: int| 0 <= x < all.len() && all[x] == i;
                assert(before[x] == i);
            }
        }
    }
}

/// A node is labelled by the first 40 characters of its content where it has some and by its ID where it
/// has none; its tooltip names the ID, the table and the distance.
pub proof fn a_node_is_labelled_by_its_content(
    n: GraphNode,
    id: Seq<char>,
    hop: u32,
    content: Option<Seq<char>>,
)
    requires
        shows_node(n, id, hop, content),
    ensures
        n.id@ == id,
        n.hop == hop,
        n.table@ == table_of(id),
        content is None ==> n.label@ == id,
        content matches Some(c) ==> n.label@ == preview(collapse(c), 40),
        table_of(id).len() > 0 ==> n.title@ == id + " — "@ + table_of(id) + ", hop "@ + decimal(
            hop as nat,
        ),
        table_of(id).len() == 0 ==> n.title@ == id + " — "@ + "node"@ + ", hop "@ + decimal(
            hop as nat,
        ),
{
}

/// Every stored edge between two drawn nodes is drawn, or one with the same ends and type is.
pub proof fn every_edge_between_drawn_nodes_is_drawn(
    rows: Seq<EdgeRow>,
    ids: Seq<Seq<char>>,
    n: nat,
    k: int,
)
    requires
        n <= rows.len(),
        0 <= k < n,
        ids.contains(rows[k].from@),
        ids.contains(rows[k].to@),
    ensures
        exists|i: int|
            0 <= i < drawn_edges(rows, ids, n).len() && {
                let e = rows[#[trigger] drawn_edges(rows, ids, n)[i]];
                e.from@ == rows[k].from@ && e.to@ == rows[k].to@ && e.edge_type@
                    == rows[k].edge_type@
            },
    decreases n,
{
    let m = (n - 1) as nat;
    let before = drawn_edges(rows, ids, m);
    let all = drawn_edges(rows, ids, n);
    if k < m {
        every_edge_between_drawn_nodes_is_drawn(rows, ids, m, k);
        let i = choose|i: int|
            0 <= i < before.len() && {
                let e = rows[#[trigger] before[i]];
                e.from@ == rows[k].from@ && e.to@ == rows[k].to@ && e.edge_type@
                    == rows[k].edge_type@
            };
        assert(all[i] == before[i]);
    } else {
        let e = rows[k];
        if crate::debug::graph::drawn_already(rows, before, e) {
            let i = choose|i: int| 0 <= i < before.len() && same_edge(rows[#[trigger] before[i]], e);
            assert(all[i] == before[i]);
        } else {
            assert(all[before.len() as int] == k);
        }
    }
}

/// A drawn edge is a stored one between two drawn nodes, and no two have the same ends and type.
pub proof fn drawn_edges_are_stored_and_distinct(rows: Seq<EdgeRow>, ids: Seq<Seq<char>>, n: nat, i: int, j: int)
    requires
        n <= rows.len(),
        0 <= i < j < drawn_edges(rows, ids, n).len(),
    ensures
        ({
            let a = rows[drawn_edges(rows, ids, n)[i]];
            let b = rows[drawn_edges(rows, ids, n)[j]];
            &&& 0 <= drawn_edges(rows, ids, n)[i] < n
            &&& ids.contains(a.from@) && ids.contains(a.to@)
            &&& ids.contains(b.from@) && ids.contains(b.to@)
            &&& a.from@ != b.from@ || a.to@ != b.to@ || a.edge_type@ != b.edge_type@
        }),
{
    crate::debug::graph::edges_join_drawn_nodes_once(rows, ids, n);
    let x = drawn_edges(rows, ids, n)[i];
    let y = drawn_edges(rows, ids, n)[j];
    assert(!same_edge(rows[x], rows[y]));
}

/// There is a next page exactly if rows are left, and a previous one exactly if rows were passed; a step
/// is as long as a page, and a step back does not go past the start.
pub proof fn pages_follow_one_another(offset: int, limit: int, rows: int, total: int)
    ensures
        next_offset(offset, limit, rows, total) is Some <==> offset + rows < total,
        next_offset(offset, limit, rows, total) matches Some(n) ==> n == offset + limit,
        prev_offset(offset, limit) is Some <==> offset > 0,
        prev_offset(offset, limit) matches Some(n) ==> (offset >= limit ==> n == offset - limit) && (
        offset < limit ==> n == 0),
{
}

/// A page says which rows it shows, counted from one, and of how many.
pub proof fn a_page_says_what_it_shows(offset: nat, rows: nat, total: nat, noun: Seq<char>)
    ensures
        rows > 0 ==> showing(offset as int, rows as int, total as int, noun) == "Showing "@ + decimal(
            offset + 1,
        ) + "–"@ + decimal(offset + rows) + " of "@ + decimal(total) + " "@ + noun,
        rows == 0 ==> showing(offset as int, rows as int, total as int, noun) == "Showing "@ + decimal(
            0,
        ) + "–"@ + decimal(offset) + " of "@ + decimal(total) + " "@ + noun,
{
}

/// A number parameter is the number that it writes, and the default where it writes none.
pub proof fn a_number_parameter_is_its_number(raw: Option<Seq<char>>, default: usize)
    ensures
        raw is None ==> number_or(raw, default) == default,
        raw matches Some(s) ==> match number_of(s, usize::MAX as int) {
            Ok(n) => number_or(raw, default) == n,
            Err(_) => number_or(raw, default) == default,
        },
{
}

} // verus!
