//! How the graph looks: a colour and a shape for each table, a colour and a line for each type of edge,
//! a width for each band of strength, and the legend. The maps that the page's script draws by and the
//! legend are written out from the same lists.
use vstd::prelude::*;

use crate::text::copy_of;

verus! {

/// How one sort of record or edge is drawn: the shape of a node, or the line of an edge.
#[derive(Debug)]
pub struct Style {
    pub key: &'static str,
    pub color: &'static str,
    pub form: &'static str,
}

/// A key with its colour and form.
pub type Look = (Seq<char>, Seq<char>, Seq<char>);

/// The keys, colours and forms of a list.
pub open spec fn looks(v: Seq<Style>) -> Seq<Look> {
    v.map_values(|s: Style| (s.key@, s.color@, s.form@))
}

/// How a node is drawn, by its table. The last entry is for a table that is not listed.
pub open spec fn node_looks() -> Seq<Look> {
    seq![
        ("fact"@, "#4e79a7"@, "dot"@),
        ("cluster"@, "#f28e2b"@, "diamond"@),
        ("raw"@, "#76b7b2"@, "square"@),
        ("session"@, "#b07aa1"@, "triangle"@),
        ("other"@, "#9c9c9c"@, "star"@),
    ]
}

/// How an edge is drawn, by its type. The last entry is for a type that is not listed.
pub open spec fn edge_looks() -> Seq<Look> {
    seq![
        ("relates_to"@, "#7f7f7f"@, "solid"@),
        ("supports"@, "#59a14f"@, "solid"@),
        ("contradicts"@, "#e15759"@, "dashed"@),
        ("derived_from"@, "#4e79a7"@, "dashed"@),
        ("extracted_from"@, "#76b7b2"@, "dashed"@),
        ("other"@, "#bab0ac"@, "solid"@),
    ]
}

/// How nodes are drawn.
pub fn node_styles() -> (r: Vec<Style>)
    ensures
        looks(r@) == node_looks(),
{
    let mut r: Vec<Style> = Vec::new();
    r.push(Style { key: "fact", color: "#4e79a7", form: "dot" });
    r.push(Style { key: "cluster", color: "#f28e2b", form: "diamond" });
    r.push(Style { key: "raw", color: "#76b7b2", form: "square" });
    r.push(Style { key: "session", color: "#b07aa1", form: "triangle" });
    r.push(Style { key: "other", color: "#9c9c9c", form: "star" });
    assert(looks(r@) =~= node_looks());
    r
}

/// How edges are drawn.
pub fn edge_styles() -> (r: Vec<Style>)
    ensures
        looks(r@) == edge_looks(),
{
    let mut r: Vec<Style> = Vec::new();
    r.push(Style { key: "relates_to", color: "#7f7f7f", form: "solid" });
    r.push(Style { key: "supports", color: "#59a14f", form: "solid" });
    r.push(Style { key: "contradicts", color: "#e15759", form: "dashed" });
    r.push(Style { key: "derived_from", color: "#4e79a7", form: "dashed" });
    r.push(Style { key: "extracted_from", color: "#76b7b2", form: "dashed" });
    r.push(Style { key: "other", color: "#bab0ac", form: "solid" });
    assert(looks(r@) =~= edge_looks());
    r
}

/// The width of an edge from some strength on.
#[derive(Debug)]
pub struct Width {
    pub from: &'static str,
    pub width: &'static str,
}

/// A strength and the width from it on.
pub type WidthBand = (Seq<char>, Seq<char>);

/// The strengths and widths of a list.
pub open spec fn width_bands(v: Seq<Width>) -> Seq<WidthBand> {
    v.map_values(|w: Width| (w.from@, w.width@))
}

/// The widths of edges, from the strongest band down; the first band that a strength reaches is its own.
pub open spec fn edge_widths() -> Seq<WidthBand> {
    seq![("0.75"@, "6"@), ("0.5"@, "4"@), ("0.25"@, "2"@), ("0"@, "1"@)]
}

/// The widths of edges.
pub fn widths() -> (r: Vec<Width>)
    ensures
        width_bands(r@) == edge_widths(),
{
    let mut r: Vec<Width> = Vec::new();
    r.push(Width { from: "0.75", width: "6" });
    r.push(Width { from: "0.5", width: "4" });
    r.push(Width { from: "0.25", width: "2" });
    r.push(Width { from: "0", width: "1" });
    assert(width_bands(r@) =~= edge_widths());
    r
}

// ---------------------------------------------------------------------------
// The maps of the script
// ---------------------------------------------------------------------------
/// An entry of a map from keys to looks.
pub open spec fn look_entry(look: Look) -> Seq<char> {
    "[\""@ + look.0 + "\", { color: \""@ + look.1 + "\", form: \""@ + look.2 + "\" }], "@
}

/// The entries of a map from keys to looks.
pub open spec fn look_map(v: Seq<Look>) -> Seq<char>
    decreases v.len(),
{
    if v.len() == 0 {
        seq![]
    } else {
        look_map(v.drop_last()) + look_entry(v.last())
    }
}

/// Writes out the entries of a map from keys to looks.
pub fn look_map_text(v: &Vec<Style>) -> (r: String)
    ensures
        r@ == look_map(looks(v@)),
{
    let ghost all = looks(v@);
    let mut r = String::new();
    let mut i: usize = 0;
    assert(all.take(0) =~= seq![]);
    while i < v.len()
        invariant
            i <= v@.len(),
            all == looks(v@),
            r@ == look_map(all.take(i as int)),
        decreases v@.len() - i,
    {
        assert(all.take(i + 1).drop_last() =~= all.take(i as int));
        let mut e = copy_of("[\"");
        e.append(v[i].key);
        e.append("\", { color: \"");
        e.append(v[i].color);
        e.append("\", form: \"");
        e.append(v[i].form);
        e.append("\" }], ");
        assert(e@ == look_entry(all.take(i + 1).last()));
        r.append(e.as_str());
        i = i + 1;
    }
    assert(all.take(all.len() as int) =~= all);
    r
}

/// An entry of the list of widths.
pub open spec fn width_entry(w: WidthBand) -> Seq<char> {
    "["@ + w.0 + ", "@ + w.1 + "], "@
}

/// The entries of the list of widths.
pub open spec fn width_list(v: Seq<WidthBand>) -> Seq<char>
    decreases v.len(),
{
    if v.len() == 0 {
        seq![]
    } else {
        width_list(v.drop_last()) + width_entry(v.last())
    }
}

/// Writes out the entries of the list of widths.
pub fn width_list_text(v: &Vec<Width>) -> (r: String)
    ensures
        r@ == width_list(width_bands(v@)),
{
    let ghost all = width_bands(v@);
    let mut r = String::new();
    let mut i: usize = 0;
    assert(all.take(0) =~= seq![]);
    while i < v.len()
        invariant
            i <= v@.len(),
            all == width_bands(v@),
            r@ == width_list(all.take(i as int)),
        decreases v@.len() - i,
    {
        assert(all.take(i + 1).drop_last() =~= all.take(i as int));
        let mut e = copy_of("[");
        e.append(v[i].from);
        e.append(", ");
        e.append(v[i].width);
        e.append("], ");
        assert(e@ == width_entry(all.take(i + 1).last()));
        r.append(e.as_str());
        i = i + 1;
    }
    assert(all.take(all.len() as int) =~= all);
    r
}

// ---------------------------------------------------------------------------
// The legend
// ---------------------------------------------------------------------------
/// An item of the legend that explains a look.
pub open spec fn look_item(look: Look) -> Seq<char> {
    "<li><span style=\"color: "@ + look.1 + "\">■</span> "@ + look.0 + " ("@ + look.2 + ")</li>"@
}

/// The items of the legend that explain looks.
pub open spec fn look_items(v: Seq<Look>) -> Seq<char>
    decreases v.len(),
{
    if v.len() == 0 {
        seq![]
    } else {
        look_items(v.drop_last()) + look_item(v.last())
    }
}

fn look_items_html(v: &Vec<Style>) -> (r: String)
    ensures
        r@ == look_items(looks(v@)),
{
    let ghost all = looks(v@);
    let mut r = String::new();
    let mut i: usize = 0;
    assert(all.take(0) =~= seq![]);
    while i < v.len()
        invariant
            i <= v@.len(),
            all == looks(v@),
            r@ == look_items(all.take(i as int)),
        decreases v@.len() - i,
    {
        assert(all.take(i + 1).drop_last() =~= all.take(i as int));
        let mut e = copy_of("<li><span style=\"color: ");
        e.append(v[i].color);
        e.append("\">■</span> ");
        e.append(v[i].key);
        e.append(" (");
        e.append(v[i].form);
        e.append(")</li>");
        assert(e@ == look_item(all.take(i + 1).last()));
        r.append(e.as_str());
        i = i + 1;
    }
    assert(all.take(all.len() as int) =~= all);
    r
}

/// An item of the legend that explains a width.
pub open spec fn width_item(w: WidthBand) -> Seq<char> {
    "<li>strength from "@ + w.0 + ": width "@ + w.1 + "</li>"@
}

/// The items of the legend that explain widths.
pub open spec fn width_items(v: Seq<WidthBand>) -> Seq<char>
    decreases v.len(),
{
    if v.len() == 0 {
        seq![]
    } else {
        width_items(v.drop_last()) + width_item(v.last())
    }
}

fn width_items_html(v: &Vec<Width>) -> (r: String)
    ensures
        r@ == width_items(width_bands(v@)),
{
    let ghost all = width_bands(v@);
    let mut r = String::new();
    let mut i: usize = 0;
    assert(all.take(0) =~= seq![]);
    while i < v.len()
        invariant
            i <= v@.len(),
            all == width_bands(v@),
            r@ == width_items(all.take(i as int)),
        decreases v@.len() - i,
    {
        assert(all.take(i + 1).drop_last() =~= all.take(i as int));
        let mut e = copy_of("<li>strength from ");
        e.append(v[i].from);
        e.append(": width ");
        e.append(v[i].width);
        e.append("</li>");
        assert(e@ == width_item(all.take(i + 1).last()));
        r.append(e.as_str());
        i = i + 1;
    }
    assert(all.take(all.len() as int) =~= all);
    r
}

/// The legend of a graph: its nodes, its edges and their widths.
pub open spec fn legend(nodes: Seq<Look>, edges: Seq<Look>, bands: Seq<WidthBand>) -> Seq<char> {
    "<h2>Legend</h2><ul class=\"legend\">"@ + look_items(nodes) + "</ul><ul class=\"legend\">"@
        + look_items(edges) + "</ul><ul class=\"legend\">"@ + width_items(bands) + "</ul>"@
}

/// Writes out the legend of a graph.
pub fn legend_html(nodes: &Vec<Style>, edges: &Vec<Style>, bands: &Vec<Width>) -> (r: String)
    ensures
        r@ == legend(looks(nodes@), looks(edges@), width_bands(bands@)),
{
    let mut r = copy_of("<h2>Legend</h2><ul class=\"legend\">");
    let n = look_items_html(nodes);
    r.append(n.as_str());
    r.append("</ul><ul class=\"legend\">");
    let e = look_items_html(edges);
    r.append(e.as_str());
    r.append("</ul><ul class=\"legend\">");
    let w = width_items_html(bands);
    r.append(w.as_str());
    r.append("</ul>");
    r
}

/// Whether a text holds a piece.
pub open spec fn holds(text: Seq<char>, piece: Seq<char>) -> bool {
    exists|a: Seq<char>, b: Seq<char>| text == #[trigger] (a + piece + b)
}

proof fn lemma_holds_more(text: Seq<char>, piece: Seq<char>, before: Seq<char>, after: Seq<char>)
    requires
        holds(text, piece),
    ensures
        holds(before + text + after, piece),
{
    let (a, b) = choose|a: Seq<char>, b: Seq<char>| text == #[trigger] (a + piece + b);
    assert(before + text + after =~= (before + a) + piece + (b + after));
}

proof fn lemma_look_is_listed(v: Seq<Look>, i: int)
    requires
        0 <= i < v.len(),
    ensures
        holds(look_map(v), look_entry(v[i])),
        holds(look_items(v), look_item(v[i])),
    decreases v.len(),
{
    let front = v.drop_last();
    if i == v.len() - 1 {
        assert(look_map(v) =~= look_map(front) + look_entry(v[i]) + seq![]);
        assert(look_items(v) =~= look_items(front) + look_item(v[i]) + seq![]);
    } else {
        lemma_look_is_listed(front, i);
        assert(front[i] == v[i]);
        lemma_holds_more(look_map(front), look_entry(v[i]), seq![], look_entry(v.last()));
        lemma_holds_more(look_items(front), look_item(v[i]), seq![], look_item(v.last()));
        assert(look_map(v) =~= seq![] + look_map(front) + look_entry(v.last()));
        assert(look_items(v) =~= seq![] + look_items(front) + look_item(v.last()));
    }
}

proof fn lemma_width_is_listed(v: Seq<WidthBand>, i: int)
    requires
        0 <= i < v.len(),
    ensures
        holds(width_list(v), width_entry(v[i])),
        holds(width_items(v), width_item(v[i])),
    decreases v.len(),
{
    let front = v.drop_last();
    if i == v.len() - 1 {
        assert(width_list(v) =~= width_list(front) + width_entry(v[i]) + seq![]);
        assert(width_items(v) =~= width_items(front) + width_item(v[i]) + seq![]);
    } else {
        lemma_width_is_listed(front, i);
        assert(front[i] == v[i]);
        lemma_holds_more(width_list(front), width_entry(v[i]), seq![], width_entry(v.last()));
        lemma_holds_more(width_items(front), width_item(v[i]), seq![], width_item(v.last()));
        assert(width_list(v) =~= seq![] + width_list(front) + width_entry(v.last()));
        assert(width_items(v) =~= seq![] + width_items(front) + width_item(v.last()));
    }
}

/// What the script draws by, the legend explains: every look and width is in the script's maps and in
/// the legend.
pub proof fn the_legend_explains_what_is_drawn(
    nodes: Seq<Look>,
    edges: Seq<Look>,
    bands: Seq<WidthBand>,
    i: int,
)
    ensures
        0 <= i < nodes.len() ==> holds(look_map(nodes), look_entry(nodes[i])) && holds(
            legend(nodes, edges, bands),
            look_item(nodes[i]),
        ),
        0 <= i < edges.len() ==> holds(look_map(edges), look_entry(edges[i])) && holds(
            legend(nodes, edges, bands),
            look_item(edges[i]),
        ),
        0 <= i < bands.len() ==> holds(width_list(bands), width_entry(bands[i])) && holds(
            legend(nodes, edges, bands),
            width_item(bands[i]),
        ),
{
    let head = "<h2>Legend</h2><ul class=\"legend\">"@;
    let next = "</ul><ul class=\"legend\">"@;
    let n = look_items(nodes);
    let e = look_items(edges);
    let w = width_items(bands);
    let text = legend(nodes, edges, bands);
    if 0 <= i < nodes.len() {
        lemma_look_is_listed(nodes, i);
        lemma_holds_more(n, look_item(nodes[i]), head, next + e + next + w + "</ul>"@);
        assert(text =~= head + n + (next + e + next + w + "</ul>"@));
    }
    if 0 <= i < edges.len() {
        lemma_look_is_listed(edges, i);
        lemma_holds_more(e, look_item(edges[i]), head + n + next, next + w + "</ul>"@);
        assert(text =~= (head + n + next) + e + (next + w + "</ul>"@));
    }
    if 0 <= i < bands.len() {
        lemma_width_is_listed(bands, i);
        lemma_holds_more(w, width_item(bands[i]), head + n + next + e + next, "</ul>"@);
        assert(text =~= (head + n + next + e + next) + w + "</ul>"@);
    }
}

} // verus!
