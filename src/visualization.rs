//! Renderings of a reference graph (Mermaid, Graphviz DOT), a focused
//! subgraph, an adjacency matrix and summary counts.

use vstd::prelude::*;
use crate::graph::{
    contains_string, copy_edge, copy_node, graph_edges_view, nodes_view, EdgeView, GraphEdge, GraphNode,
    NodeView, ReferenceGraph, RelationshipType,
};
use crate::search::{lemma_lex_total, lemma_lex_trans, lex_le, lex_le_exec};
use crate::text::chars_of;
use crate::types::{strs_view, DeclarationKind};
use vstd::string::StringExecFns;

verus! {

broadcast use vstd::string::group_string_axioms;

#[derive(Clone, Copy, Debug, PartialEq, Eq, Structural)]
pub enum Direction {
    TopDown,
    LeftToRight,
    BottomUp,
    RightToLeft,
}

#[derive(Clone, Copy, Debug, PartialEq, Eq, Structural)]
pub enum ColorScheme {
    Default,
    Dark,
    Light,
    HighContrast,
}

#[derive(Clone, Copy, Debug, PartialEq, Eq, Structural)]
pub enum NodeSize {
    Small,
    Medium,
    Large,
}

/// How a graph is drawn.
#[derive(Clone, Copy, Debug, PartialEq, Eq, Structural)]
pub struct VisualizationConfig {
    pub direction: Direction,
    pub show_labels: bool,
    pub color_scheme: ColorScheme,
    pub node_size: NodeSize,
}

impl VisualizationConfig {
    /// Top-down, labelled, default colours, medium nodes.
    pub fn standard() -> (r: VisualizationConfig)
        ensures
            r.direction == Direction::TopDown,
            r.show_labels,
            r.color_scheme == ColorScheme::Default,
            r.node_size == NodeSize::Medium,
    {
        VisualizationConfig {
            direction: Direction::TopDown,
            show_labels: true,
            color_scheme: ColorScheme::Default,
            node_size: NodeSize::Medium,
        }
    }
}

impl Default for VisualizationConfig {
    fn default() -> (r: VisualizationConfig)
        ensures
            r.direction == Direction::TopDown,
            r.show_labels,
            r.color_scheme == ColorScheme::Default,
            r.node_size == NodeSize::Medium,
    {
        VisualizationConfig::standard()
    }
}

/// Node ids in sorted order and, for each ordered pair, whether an edge
/// joins them.
#[derive(Clone, Debug)]
pub struct DependencyMatrix {
    pub nodes: Vec<String>,
    pub matrix: Vec<Vec<bool>>,
}

/// One count per declaration kind or per relationship type.
#[derive(Clone, Debug)]
pub struct KindCounts {
    pub counts: Vec<usize>,
}

impl KindCounts {
    /// The count at `slot`; `None` where it is zero.
    pub fn at(&self, slot: usize) -> (r: Option<&usize>)
        requires
            slot < self.counts@.len(),
        ensures
            r is Some <==> self.counts@[slot as int] > 0,
            r matches Some(c) ==> *c == self.counts@[slot as int],
    {
        if self.counts[slot] > 0 {
            Some(&self.counts[slot])
        } else {
            None
        }
    }
}

/// Counts over a graph.
#[derive(Clone, Debug)]
pub struct GraphSummary {
    pub total_nodes: usize,
    pub total_edges: usize,
    /// Nodes per declaration kind, in the slots of `kind_slot`.
    pub node_counts: KindCounts,
    /// Edges per relationship type, in the slots of `relationship_slot`.
    pub relationship_counts: KindCounts,
    pub isolated_nodes: usize,
}

impl GraphSummary {
    /// The number of nodes of `kind`; `None` where there are none.
    pub fn nodes_of_kind(&self, kind: &DeclarationKind) -> (r: Option<&usize>)
        requires
            self.node_counts.counts@.len() == 5,
        ensures
            r is Some <==> self.node_counts.counts@[kind_slot(*kind) as int] > 0,
            r matches Some(c) ==> *c == self.node_counts.counts@[kind_slot(*kind) as int],
    {
        self.node_counts.at(kind_slot_of(*kind))
    }

    /// The number of edges of `rel`; `None` where there are none.
    pub fn edges_of_type(&self, rel: &RelationshipType) -> (r: Option<&usize>)
        requires
            self.relationship_counts.counts@.len() == 5,
        ensures
            r is Some <==> self.relationship_counts.counts@[relationship_slot(*rel) as int] > 0,
            r matches Some(c) ==> *c == self.relationship_counts.counts@[relationship_slot(*rel) as int],
    {
        self.relationship_counts.at(relationship_slot_of(*rel))
    }
}

pub open spec fn kind_slot(k: DeclarationKind) -> nat {
    match k {
        DeclarationKind::Class => 0,
        DeclarationKind::Interface => 1,
        DeclarationKind::Enum => 2,
        DeclarationKind::Record => 3,
        DeclarationKind::Annotation => 4,
    }
}

fn kind_slot_of(k: DeclarationKind) -> (r: usize)
    ensures
        r == kind_slot(k),
{
    match k {
        DeclarationKind::Class => 0,
        DeclarationKind::Interface => 1,
        DeclarationKind::Enum => 2,
        DeclarationKind::Record => 3,
        DeclarationKind::Annotation => 4,
    }
}

pub open spec fn relationship_slot(r: RelationshipType) -> nat {
    match r {
        RelationshipType::Extends => 0,
        RelationshipType::Implements => 1,
        RelationshipType::Uses => 2,
        RelationshipType::References => 3,
        RelationshipType::DependsOn => 4,
    }
}

fn relationship_slot_of(r: RelationshipType) -> (s: usize)
    ensures
        s == relationship_slot(r),
{
    match r {
        RelationshipType::Extends => 0,
        RelationshipType::Implements => 1,
        RelationshipType::Uses => 2,
        RelationshipType::References => 3,
        RelationshipType::DependsOn => 4,
    }
}

/// The Mermaid class of a kind of node.
pub open spec fn node_class(k: DeclarationKind) -> Seq<char> {
    match k {
        DeclarationKind::Class => "classNode"@,
        DeclarationKind::Interface => "interfaceNode"@,
        DeclarationKind::Enum => "enumNode"@,
        DeclarationKind::Record => "recordNode"@,
        DeclarationKind::Annotation => "annotationNode"@,
    }
}

/// The label of an edge.
pub open spec fn edge_label(r: RelationshipType) -> Seq<char> {
    match r {
        RelationshipType::Extends => "extends"@,
        RelationshipType::Implements => "implements"@,
        RelationshipType::Uses => "uses"@,
        RelationshipType::References => "references"@,
        RelationshipType::DependsOn => "depends on"@,
    }
}

/// The DOT line style of an edge.
pub open spec fn edge_line_style(r: RelationshipType) -> Seq<char> {
    match r {
        RelationshipType::Extends => "solid"@,
        RelationshipType::Implements => "dashed"@,
        RelationshipType::Uses => "dotted"@,
        RelationshipType::References => "solid"@,
        RelationshipType::DependsOn => "bold"@,
    }
}

/// The DOT fill colour of a kind of node.
pub open spec fn node_color(k: DeclarationKind) -> Seq<char> {
    match k {
        DeclarationKind::Class => "lightblue"@,
        DeclarationKind::Interface => "lightcoral"@,
        DeclarationKind::Enum => "lightgreen"@,
        DeclarationKind::Record => "lightyellow"@,
        DeclarationKind::Annotation => "lightpink"@,
    }
}

fn node_class_text(k: DeclarationKind) -> (r: String)
    ensures
        r@ == node_class(k),
{
    match k {
        DeclarationKind::Class => "classNode".to_string(),
        DeclarationKind::Interface => "interfaceNode".to_string(),
        DeclarationKind::Enum => "enumNode".to_string(),
        DeclarationKind::Record => "recordNode".to_string(),
        DeclarationKind::Annotation => "annotationNode".to_string(),
    }
}

fn edge_label_text(r: RelationshipType) -> (s: String)
    ensures
        s@ == edge_label(r),
{
    match r {
        RelationshipType::Extends => "extends".to_string(),
        RelationshipType::Implements => "implements".to_string(),
        RelationshipType::Uses => "uses".to_string(),
        RelationshipType::References => "references".to_string(),
        RelationshipType::DependsOn => "depends on".to_string(),
    }
}

fn edge_line_style_text(r: RelationshipType) -> (s: String)
    ensures
        s@ == edge_line_style(r),
{
    match r {
        RelationshipType::Extends => "solid".to_string(),
        RelationshipType::Implements => "dashed".to_string(),
        RelationshipType::Uses => "dotted".to_string(),
        RelationshipType::References => "solid".to_string(),
        RelationshipType::DependsOn => "bold".to_string(),
    }
}

fn node_color_text(k: DeclarationKind) -> (r: String)
    ensures
        r@ == node_color(k),
{
    match k {
        DeclarationKind::Class => "lightblue".to_string(),
        DeclarationKind::Interface => "lightcoral".to_string(),
        DeclarationKind::Enum => "lightgreen".to_string(),
        DeclarationKind::Record => "lightyellow".to_string(),
        DeclarationKind::Annotation => "lightpink".to_string(),
    }
}

/// A label with `"` written `\"` and line breaks written `\n`.
pub open spec fn escape_seq(s: Seq<char>) -> Seq<char>
    decreases s.len(),
{
    if s.len() == 0 {
        Seq::empty()
    } else {
        let c = s.last();
        escape_seq(s.drop_last()) + (if c == '"' {
            seq!['\\', '"']
        } else if c == '\n' {
            seq!['\\', 'n']
        } else {
            seq![c]
        })
    }
}

fn escape_label(label: &String) -> (r: String)
    ensures
        r@ == escape_seq(label@),
{
    let v = chars_of(label.as_str());
    let mut out = String::new();
    let mut i: usize = 0;
    while i < v.len()
        invariant
            i <= v@.len(),
            v@ == label@,
            out@ == escape_seq(v@.take(i as int)),
        decreases v@.len() - i,
    {
        let c = v[i];
        assert(v@.take(i + 1).drop_last() =~= v@.take(i as int));
        if c == '"' {
            crate::text::push_char(&mut out, '\\');
            crate::text::push_char(&mut out, '"');
        } else if c == '\n' {
            crate::text::push_char(&mut out, '\\');
            crate::text::push_char(&mut out, 'n');
        } else {
            crate::text::push_char(&mut out, c);
        }
        proof {
            let prev = escape_seq(v@.take(i as int));
            if c == '"' {
                assert(out@ =~= prev + seq!['\\', '"']);
            } else if c == '\n' {
                assert(out@ =~= prev + seq!['\\', 'n']);
            } else {
                assert(out@ =~= prev + seq![c]);
            }
        }
        i = i + 1;
    }
    assert(v@.take(v@.len() as int) =~= v@);
    out
}

/// The Mermaid class definitions, one line per kind of node.
pub open spec fn mermaid_styles() -> Seq<char> {
    "    classDef classNode fill:#e1f5fe,stroke:#01579b,stroke-width:2px\n"@
        + "    classDef interfaceNode fill:#f3e5f5,stroke:#4a148c,stroke-width:2px\n"@
        + "    classDef enumNode fill:#e8f5e8,stroke:#1b5e20,stroke-width:2px\n"@
        + "    classDef recordNode fill:#fff3e0,stroke:#e65100,stroke-width:2px\n"@
        + "    classDef annotationNode fill:#fce4ec,stroke:#880e4f,stroke-width:2px\n"@
}

pub open spec fn mermaid_node_line(n: NodeView) -> Seq<char> {
    "    "@ + n.id + "["@ + escape_seq(n.label) + "]:::"@ + node_class(n.kind) + "\n"@
}

pub open spec fn mermaid_edge_line(e: EdgeView) -> Seq<char> {
    "    "@ + e.from + " --"@ + edge_label(e.relationship) + "--> "@ + e.to + "\n"@
}

pub open spec fn mermaid_nodes_upto(ns: Seq<NodeView>, n: int) -> Seq<char>
    decreases n,
{
    if n <= 0 { Seq::empty() } else { mermaid_nodes_upto(ns, n - 1) + mermaid_node_line(ns[n - 1]) }
}

pub open spec fn mermaid_edges_upto(es: Seq<EdgeView>, n: int) -> Seq<char>
    decreases n,
{
    if n <= 0 { Seq::empty() } else { mermaid_edges_upto(es, n - 1) + mermaid_edge_line(es[n - 1]) }
}

/// The whole Mermaid text of a graph.
pub open spec fn mermaid_of(ns: Seq<NodeView>, es: Seq<EdgeView>, dir: Direction) -> Seq<char> {
    (if dir == Direction::LeftToRight { "graph LR\n"@ } else { "graph TD\n"@ }) + mermaid_styles()
        + mermaid_nodes_upto(ns, ns.len() as int) + mermaid_edges_upto(es, es.len() as int)
}

/// An identifier that DOT takes without quotes.
pub open spec fn is_plain_id(s: Seq<char>) -> bool {
    s.len() > 0 && !('0' <= s[0] <= '9') && forall|i: int| 0 <= i < s.len() ==> is_id_char(#[trigger] s[i])
}

pub open spec fn is_id_char(c: char) -> bool {
    ('a' <= c <= 'z') || ('A' <= c <= 'Z') || ('0' <= c <= '9') || c == '_'
}

/// A node id as DOT reads it: quoted unless it is a plain identifier.
pub open spec fn dot_id(s: Seq<char>) -> Seq<char> {
    if is_plain_id(s) { s } else { "\""@ + s + "\""@ }
}

pub open spec fn dot_node_line(n: NodeView) -> Seq<char> {
    "    "@ + dot_id(n.id) + " [shape=box, style=filled, fillcolor="@ + node_color(n.kind) + ", label=\""@
        + escape_seq(n.label) + "\"];\n"@
}

pub open spec fn dot_edge_line(e: EdgeView) -> Seq<char> {
    "    "@ + dot_id(e.from) + " -> "@ + dot_id(e.to) + " [style="@ + edge_line_style(e.relationship)
        + ", label=\""@ + edge_label(e.relationship) + "\"];\n"@
}

pub open spec fn dot_nodes_upto(ns: Seq<NodeView>, n: int) -> Seq<char>
    decreases n,
{
    if n <= 0 { Seq::empty() } else { dot_nodes_upto(ns, n - 1) + dot_node_line(ns[n - 1]) }
}

pub open spec fn dot_edges_upto(es: Seq<EdgeView>, n: int) -> Seq<char>
    decreases n,
{
    if n <= 0 { Seq::empty() } else { dot_edges_upto(es, n - 1) + dot_edge_line(es[n - 1]) }
}

/// The whole DOT text of a graph.
pub open spec fn dot_of(ns: Seq<NodeView>, es: Seq<EdgeView>, dir: Direction) -> Seq<char> {
    "digraph G {\n"@ + (if dir == Direction::LeftToRight { "    rankdir=LR;\n"@ } else { Seq::empty() })
        + "    node [fontname=\"Helvetica\"];\n"@ + "    edge [fontname=\"Helvetica\"];\n"@
        + dot_nodes_upto(ns, ns.len() as int) + dot_edges_upto(es, es.len() as int) + "}\n"@
}

fn dot_id_text(s: &String) -> (r: String)
    ensures
        r@ == dot_id(s@),
{
    let v = chars_of(s.as_str());
    let mut plain = v.len() > 0 && !('0' <= v[0] && v[0] <= '9');
    let mut i: usize = 0;
    while i < v.len()
        invariant
            i <= v@.len(),
            v@ == s@,
            plain == (v@.len() > 0 && !('0' <= v@[0] <= '9') && forall|j: int| 0 <= j < i ==> is_id_char(#[trigger] v@[j])),
        decreases v@.len() - i,
    {
        let c = v[i];
        if !(('a' <= c && c <= 'z') || ('A' <= c && c <= 'Z') || ('0' <= c && c <= '9') || c == '_') {
            plain = false;
        }
        i = i + 1;
    }
    if plain {
        s.clone()
    } else {
        let mut r = "\"".to_string();
        r.append(s.as_str());
        r.append("\"");
        r
    }
}

/// Draws reference graphs.
pub struct GraphVisualizer {}

impl GraphVisualizer {
    /// The graph as a Mermaid flowchart: direction, class definitions, one
    /// line per node (id, escaped label, class of its kind), one line per
    /// edge (labelled with its relationship).
    pub fn to_mermaid(&self, graph: &ReferenceGraph, config: &VisualizationConfig) -> (r: String)
        ensures
            r@ == mermaid_of(nodes_view(graph.nodes@), graph_edges_view(graph.edges@), config.direction),
    {
        let ghost ns = nodes_view(graph.nodes@);
        let ghost es = graph_edges_view(graph.edges@);
        let mut out = if config.direction == Direction::LeftToRight {
            "graph LR\n".to_string()
        } else {
            "graph TD\n".to_string()
        };
        out.append("    classDef classNode fill:#e1f5fe,stroke:#01579b,stroke-width:2px\n");
        out.append("    classDef interfaceNode fill:#f3e5f5,stroke:#4a148c,stroke-width:2px\n");
        out.append("    classDef enumNode fill:#e8f5e8,stroke:#1b5e20,stroke-width:2px\n");
        out.append("    classDef recordNode fill:#fff3e0,stroke:#e65100,stroke-width:2px\n");
        out.append("    classDef annotationNode fill:#fce4ec,stroke:#880e4f,stroke-width:2px\n");
        let ghost head = out@;
        assert(head =~= (if config.direction == Direction::LeftToRight { "graph LR\n"@ } else { "graph TD\n"@ }) + mermaid_styles());
        let mut i: usize = 0;
        while i < graph.nodes.len()
            invariant
                i <= graph.nodes@.len(),
                ns == nodes_view(graph.nodes@),
                out@ == head + mermaid_nodes_upto(ns, i as int),
            decreases graph.nodes@.len() - i,
        {
            let n = &graph.nodes[i];
            let label = escape_label(&n.label);
            let class = node_class_text(n.kind);
            let ghost before = out@;
            out.append("    ");
            out.append(n.id.as_str());
            out.append("[");
            out.append(label.as_str());
            out.append("]:::");
            out.append(class.as_str());
            out.append("\n");
            assert(ns[i as int] == n@);
            assert(out@ =~= before + mermaid_node_line(ns[i as int]));
            i = i + 1;
        }
        let ghost mid = out@;
        let mut j: usize = 0;
        while j < graph.edges.len()
            invariant
                j <= graph.edges@.len(),
                es == graph_edges_view(graph.edges@),
                out@ == mid + mermaid_edges_upto(es, j as int),
            decreases graph.edges@.len() - j,
        {
            let e = &graph.edges[j];
            let label = edge_label_text(e.relationship);
            let ghost before = out@;
            out.append("    ");
            out.append(e.from.as_str());
            out.append(" --");
            out.append(label.as_str());
            out.append("--> ");
            out.append(e.to.as_str());
            out.append("\n");
            assert(es[j as int] == e@);
            assert(out@ =~= before + mermaid_edge_line(es[j as int]));
            j = j + 1;
        }
        assert(out@ =~= mermaid_of(ns, es, config.direction));
        out
    }

    /// The graph in Graphviz DOT: boxes filled by kind, edges styled and
    /// labelled by relationship.
    pub fn to_dot(&self, graph: &ReferenceGraph, config: &VisualizationConfig) -> (r: String)
        ensures
            r@ == dot_of(nodes_view(graph.nodes@), graph_edges_view(graph.edges@), config.direction),
    {
        let ghost ns = nodes_view(graph.nodes@);
        let ghost es = graph_edges_view(graph.edges@);
        let mut out = "digraph G {\n".to_string();
        if config.direction == Direction::LeftToRight {
            out.append("    rankdir=LR;\n");
        }
        out.append("    node [fontname=\"Helvetica\"];\n");
        out.append("    edge [fontname=\"Helvetica\"];\n");
        let ghost head = out@;
        assert(head =~= "digraph G {\n"@ + (if config.direction == Direction::LeftToRight { "    rankdir=LR;\n"@ } else { Seq::empty() })
            + "    node [fontname=\"Helvetica\"];\n"@ + "    edge [fontname=\"Helvetica\"];\n"@);
        let mut i: usize = 0;
        while i < graph.nodes.len()
            invariant
                i <= graph.nodes@.len(),
                ns == nodes_view(graph.nodes@),
                out@ == head + dot_nodes_upto(ns, i as int),
            decreases graph.nodes@.len() - i,
        {
            let n = &graph.nodes[i];
            let id = dot_id_text(&n.id);
            let color = node_color_text(n.kind);
            let label = escape_label(&n.label);
            let ghost before = out@;
            out.append("    ");
            out.append(id.as_str());
            out.append(" [shape=box, style=filled, fillcolor=");
            out.append(color.as_str());
            out.append(", label=\"");
            out.append(label.as_str());
            out.append("\"];\n");
            assert(ns[i as int] == n@);
            assert(out@ =~= before + dot_node_line(ns[i as int]));
            i = i + 1;
        }
        let ghost mid = out@;
        let mut j: usize = 0;
        while j < graph.edges.len()
            invariant
                j <= graph.edges@.len(),
                es == graph_edges_view(graph.edges@),
                out@ == mid + dot_edges_upto(es, j as int),
            decreases graph.edges@.len() - j,
        {
            let e = &graph.edges[j];
            let from = dot_id_text(&e.from);
            let to = dot_id_text(&e.to);
            let style = edge_line_style_text(e.relationship);
            let label = edge_label_text(e.relationship);
            let ghost before = out@;
            out.append("    ");
            out.append(from.as_str());
            out.append(" -> ");
            out.append(to.as_str());
            out.append(" [style=");
            out.append(style.as_str());
            out.append(", label=\"");
            out.append(label.as_str());
            out.append("\"];\n");
            assert(es[j as int] == e@);
            assert(out@ =~= before + dot_edge_line(es[j as int]));
            j = j + 1;
        }
        out.append("}\n");
        assert(out@ =~= dot_of(ns, es, config.direction));
        out
    }

    /// The DOT text wrapped in an SVG comment, for a renderer to replace.
    pub fn to_svg(&self, graph: &ReferenceGraph, config: &VisualizationConfig) -> (r: String)
        ensures
            r@ == "<!-- SVG generated from:\n"@ + dot_of(nodes_view(graph.nodes@), graph_edges_view(graph.edges@), config.direction) + "\n-->"@,
    {
        let dot = self.to_dot(graph, config);
        let mut r = "<!-- SVG generated from:\n".to_string();
        r.append(dot.as_str());
        r.append("\n-->");
        r
    }

    /// The names within `depth` hops of `focus` over edges in either
    /// direction. Rounds stop early once one adds nothing.
    fn neighborhood(&self, graph: &ReferenceGraph, focus: &String, depth: usize) -> (r: Vec<String>)
        ensures
            forall|x: Seq<char>| #[trigger] strs_view(r@).contains(x) <==> within(graph_edges_view(graph.edges@), focus@, x, depth as nat),
    {
        let ghost es = graph_edges_view(graph.edges@);
        let ghost f = focus@;
        let mut keep: Vec<String> = vec![focus.clone()];
        proof {
            assert forall|x: Seq<char>| #[trigger] strs_view(keep@).contains(x) <==> within(es, f, x, 0) by {
                if strs_view(keep@).contains(x) {
                    let k = choose|k: int| 0 <= k < strs_view(keep@).len() && strs_view(keep@)[k] == x;
                }
                if x == f {
                    assert(strs_view(keep@)[0] == x);
                }
            }
        }
        let mut round: usize = 0;
        let mut done = false;
        while round < depth && !done
            invariant
                round <= depth,
                es == graph_edges_view(graph.edges@),
                f == focus@,
                forall|x: Seq<char>| #[trigger] strs_view(keep@).contains(x) <==> within(es, f, x, round as nat),
                done ==> forall|x: Seq<char>| #[trigger] within(es, f, x, round as nat) == within(es, f, x, depth as nat),
            decreases depth - round + (if done { 0int } else { 1int }),
        {
            let prev = crate::graph::copy_strings(&keep);
            let ghost pv = strs_view(prev@);
            let mut added = false;
            let mut i: usize = 0;
            while i < graph.edges.len()
                invariant
                    round < depth,
                    i <= graph.edges@.len(),
                    es == graph_edges_view(graph.edges@),
                    f == focus@,
                    pv == strs_view(prev@),
                    forall|x: Seq<char>| #[trigger] pv.contains(x) <==> within(es, f, x, round as nat),
                    forall|x: Seq<char>| #[trigger] strs_view(keep@).contains(x) <==> (pv.contains(x) || exists|j: int| 0 <= j < i
                        && ((#[trigger] es[j].to == x && pv.contains(es[j].from)) || (es[j].from == x && pv.contains(es[j].to)))),
                    !added ==> strs_view(keep@) == pv,
                decreases graph.edges@.len() - i,
            {
                let e = &graph.edges[i];
                assert(es[i as int] == e@);
                let ghost k0 = keep@;
                if contains_string(&prev, e.from.as_str()) && !contains_string(&keep, e.to.as_str()) {
                    let t = e.to.clone();
                    proof { lemma_push_contains(keep@, t); }
                    keep.push(t);
                    added = true;
                }
                let ghost k1 = keep@;
                assert(forall|x: Seq<char>| #[trigger] strs_view(k1).contains(x) ==> (strs_view(k0).contains(x)
                    || (x == es[i as int].to && pv.contains(es[i as int].from))));
                assert(pv.contains(es[i as int].from) ==> strs_view(k1).contains(es[i as int].to));
                assert(forall|x: Seq<char>| #[trigger] strs_view(k0).contains(x) ==> strs_view(k1).contains(x));
                if contains_string(&prev, e.to.as_str()) && !contains_string(&keep, e.from.as_str()) {
                    let t = e.from.clone();
                    proof { lemma_push_contains(keep@, t); }
                    keep.push(t);
                    added = true;
                }
                assert(forall|x: Seq<char>| #[trigger] strs_view(keep@).contains(x) ==> (strs_view(k1).contains(x)
                    || (x == es[i as int].from && pv.contains(es[i as int].to))));
                assert(pv.contains(es[i as int].to) ==> strs_view(keep@).contains(es[i as int].from));
                assert(forall|x: Seq<char>| #[trigger] strs_view(k1).contains(x) ==> strs_view(keep@).contains(x));
                proof {
                    assert forall|x: Seq<char>| #[trigger] strs_view(keep@).contains(x) <==> (pv.contains(x) || exists|j: int| 0 <= j < i + 1
                        && ((#[trigger] es[j].to == x && pv.contains(es[j].from)) || (es[j].from == x && pv.contains(es[j].to)))) by {
                        if (es[i as int].to == x && pv.contains(es[i as int].from)) || (es[i as int].from == x && pv.contains(es[i as int].to)) {
                            assert(0 <= i < i + 1);
                        }
                        if exists|j: int| 0 <= j < i + 1 && ((#[trigger] es[j].to == x && pv.contains(es[j].from)) || (es[j].from == x && pv.contains(es[j].to))) {
                            let j = choose|j: int| 0 <= j < i + 1 && ((#[trigger] es[j].to == x && pv.contains(es[j].from)) || (es[j].from == x && pv.contains(es[j].to)));
                            if j < i {
                                assert(0 <= j < i && ((es[j].to == x && pv.contains(es[j].from)) || (es[j].from == x && pv.contains(es[j].to))));
                            }
                        }
                    }
                }
                i = i + 1;
            }
            proof {
                assert forall|x: Seq<char>| #[trigger] strs_view(keep@).contains(x) <==> within(es, f, x, (round + 1) as nat) by {
                    assert(within(es, f, x, (round + 1) as nat) == (within(es, f, x, round as nat) || exists|j: int| 0 <= j < es.len()
                        && ((#[trigger] es[j].to == x && within(es, f, es[j].from, round as nat)) || (es[j].from == x && within(es, f, es[j].to, round as nat)))));
                    if exists|j: int| 0 <= j < es.len() && ((#[trigger] es[j].to == x && within(es, f, es[j].from, round as nat)) || (es[j].from == x && within(es, f, es[j].to, round as nat))) {
                        let j = choose|j: int| 0 <= j < es.len() && ((#[trigger] es[j].to == x && within(es, f, es[j].from, round as nat)) || (es[j].from == x && within(es, f, es[j].to, round as nat)));
                        assert(pv.contains(es[j].from) || pv.contains(es[j].to));
                    }
                    if exists|j: int| 0 <= j < graph.edges@.len() && ((#[trigger] es[j].to == x && pv.contains(es[j].from)) || (es[j].from == x && pv.contains(es[j].to))) {
                        let j = choose|j: int| 0 <= j < graph.edges@.len() && ((#[trigger] es[j].to == x && pv.contains(es[j].from)) || (es[j].from == x && pv.contains(es[j].to)));
                        assert(within(es, f, es[j].from, round as nat) || within(es, f, es[j].to, round as nat));
                    }
                }
                if !added {
                    assert forall|x: Seq<char>| #[trigger] within(es, f, x, (round + 1) as nat) == within(es, f, x, round as nat) by {
                        assert(strs_view(keep@).contains(x) == pv.contains(x));
                    }
                    lemma_within_stable(es, f, round as nat, depth as nat);
                }
            }
            round = round + 1;
            if !added {
                done = true;
            }
        }
        keep
    }

    /// The subgraph of nodes within `depth` hops of `focus_node`, and the
    /// edges among them.
    pub fn generate_focused_graph(&self, graph: &ReferenceGraph, focus_node: &str, depth: usize) -> (r: ReferenceGraph)
        ensures
            exists|keep: Seq<Seq<char>>| (forall|x: Seq<char>| #[trigger] keep.contains(x)
                    <==> within(graph_edges_view(graph.edges@), focus_node@, x, depth as nat))
                && nodes_view(r.nodes@) == kept_nodes(nodes_view(graph.nodes@), keep, graph.nodes@.len() as int)
                && graph_edges_view(r.edges@) == kept_edges(graph_edges_view(graph.edges@), keep, graph.edges@.len() as int),
    {
        let focus = focus_node.to_string();
        let collected = self.neighborhood(graph, &focus, depth);
        let ghost keep = strs_view(collected@);
        let ghost ns = nodes_view(graph.nodes@);
        let ghost es = graph_edges_view(graph.edges@);
        let mut nodes: Vec<GraphNode> = Vec::new();
        let mut i: usize = 0;
        while i < graph.nodes.len()
            invariant
                i <= graph.nodes@.len(),
                keep == strs_view(collected@),
                ns == nodes_view(graph.nodes@),
                nodes_view(nodes@) == kept_nodes(ns, keep, i as int),
            decreases graph.nodes@.len() - i,
        {
            assert(ns[i as int] == graph.nodes@[i as int]@);
            if contains_string(&collected, graph.nodes[i].id.as_str()) {
                let n = copy_node(&graph.nodes[i]);
                proof {
                    assert(nodes_view(nodes@.push(n)) =~= nodes_view(nodes@).push(n@));
                }
                nodes.push(n);
            }
            i = i + 1;
        }
        let mut edges: Vec<GraphEdge> = Vec::new();
        let mut j: usize = 0;
        while j < graph.edges.len()
            invariant
                j <= graph.edges@.len(),
                keep == strs_view(collected@),
                es == graph_edges_view(graph.edges@),
                graph_edges_view(edges@) == kept_edges(es, keep, j as int),
            decreases graph.edges@.len() - j,
        {
            assert(es[j as int] == graph.edges@[j as int]@);
            if contains_string(&collected, graph.edges[j].from.as_str())
                && contains_string(&collected, graph.edges[j].to.as_str()) {
                let e = copy_edge(&graph.edges[j]);
                proof {
                    assert(graph_edges_view(edges@.push(e)) =~= graph_edges_view(edges@).push(e@));
                }
                edges.push(e);
            }
            j = j + 1;
        }
        ReferenceGraph { nodes, edges }
    }

    /// Node ids in sorted order, and for each ordered pair of them whether
    /// an edge leads from the first to the second.
    pub fn generate_dependency_matrix(&self, graph: &ReferenceGraph) -> (r: DependencyMatrix)
        ensures
            sorted_texts(strs_view(r.nodes@)),
            strs_view(r.nodes@).to_multiset() == node_ids(nodes_view(graph.nodes@)).to_multiset(),
            r.matrix@.len() == r.nodes@.len(),
            forall|i: int| 0 <= i < r.matrix@.len() ==> (#[trigger] r.matrix@[i])@.len() == r.nodes@.len(),
            forall|i: int, j: int| 0 <= i < r.nodes@.len() && 0 <= j < r.nodes@.len() ==>
                (#[trigger] r.matrix@[i]@[j] <==> has_edge(graph_edges_view(graph.edges@), r.nodes@[i]@, r.nodes@[j]@)),
    {
        let ghost all = node_ids(nodes_view(graph.nodes@));
        let mut ids: Vec<String> = Vec::new();
        let mut i: usize = 0;
        assert(strs_view(ids@) =~= all.take(0));
        while i < graph.nodes.len()
            invariant
                i <= graph.nodes@.len(),
                all == node_ids(nodes_view(graph.nodes@)),
                sorted_texts(strs_view(ids@)),
                strs_view(ids@).to_multiset() == all.take(i as int).to_multiset(),
            decreases graph.nodes@.len() - i,
        {
            let id = graph.nodes[i].id.clone();
            proof {
                assert(all.take(i + 1) =~= all.take(i as int).push(id@));
                vstd::seq_lib::to_multiset_build(all.take(i as int), id@);
            }
            insert_sorted(&mut ids, id);
            i = i + 1;
        }
        assert(all.take(graph.nodes@.len() as int) =~= all);
        let n = ids.len();
        let ghost es = graph_edges_view(graph.edges@);
        let mut matrix: Vec<Vec<bool>> = Vec::new();
        let mut a: usize = 0;
        while a < n
            invariant
                n == ids@.len(),
                a <= n,
                es == graph_edges_view(graph.edges@),
                matrix@.len() == a,
                forall|x: int| 0 <= x < a ==> (#[trigger] matrix@[x])@.len() == n,
                forall|x: int, y: int| 0 <= x < a && 0 <= y < n ==>
                    (#[trigger] matrix@[x]@[y] <==> has_edge(es, ids@[x]@, ids@[y]@)),
            decreases n - a,
        {
            let mut row: Vec<bool> = Vec::new();
            let mut b: usize = 0;
            while b < n
                invariant
                    n == ids@.len(),
                    a < n,
                    b <= n,
                    es == graph_edges_view(graph.edges@),
                    row@.len() == b,
                    forall|y: int| 0 <= y < b ==> (#[trigger] row@[y] <==> has_edge(es, ids@[a as int]@, ids@[y]@)),
                decreases n - b,
            {
                let joined = edge_between(&graph.edges, &ids[a], &ids[b]);
                row.push(joined);
                b = b + 1;
            }
            matrix.push(row);
            a = a + 1;
        }
        DependencyMatrix { nodes: ids, matrix }
    }

    /// Totals, nodes per kind, edges per relationship, and the nodes that
    /// no edge touches.
    pub fn generate_summary(&self, graph: &ReferenceGraph) -> (r: GraphSummary)
        ensures
            r.total_nodes == graph.nodes@.len(),
            r.total_edges == graph.edges@.len(),
            r.node_counts.counts@.len() == 5,
            r.relationship_counts.counts@.len() == 5,
            forall|k: DeclarationKind| #[trigger] r.node_counts.counts@[kind_slot(k) as int]
                == count_kind(nodes_view(graph.nodes@), k, graph.nodes@.len() as int),
            forall|t: RelationshipType| #[trigger] r.relationship_counts.counts@[relationship_slot(t) as int]
                == count_relationship(graph_edges_view(graph.edges@), t, graph.edges@.len() as int),
            r.isolated_nodes == count_isolated(nodes_view(graph.nodes@), graph_edges_view(graph.edges@), graph.nodes@.len() as int),
    {
        let ghost ns = nodes_view(graph.nodes@);
        let ghost es = graph_edges_view(graph.edges@);
        let mut counts: Vec<usize> = vec![0, 0, 0, 0, 0];
        let mut isolated: usize = 0;
        let mut i: usize = 0;
        while i < graph.nodes.len()
            invariant
                i <= graph.nodes@.len(),
                ns == nodes_view(graph.nodes@),
                es == graph_edges_view(graph.edges@),
                counts@.len() == 5,
                forall|k: DeclarationKind| #[trigger] counts@[kind_slot(k) as int] == count_kind(ns, k, i as int),
                forall|k: DeclarationKind| #[trigger] count_kind(ns, k, i as int) <= i,
                isolated == count_isolated(ns, es, i as int),
                isolated <= i,
            decreases graph.nodes@.len() - i,
        {
            let n = &graph.nodes[i];
            assert(ns[i as int] == n@);
            let s = kind_slot_of(n.kind);
            let c = counts[s];
            assert(c == count_kind(ns, n.kind, i as int));
            counts.set(s, c + 1);
            proof {
                assert forall|k: DeclarationKind| #[trigger] count_kind(ns, k, i + 1) <= i + 1 by {
                    assert(count_kind(ns, k, i as int) <= i);
                }
                assert forall|k: DeclarationKind| #[trigger] counts@[kind_slot(k) as int] == count_kind(ns, k, i + 1) by {
                    if k != n.kind {
                        assert(kind_slot(k) != kind_slot(n.kind));
                    }
                }
            }
            if !touched(&graph.edges, &n.id) {
                isolated = isolated + 1;
            }
            i = i + 1;
        }
        let mut rel: Vec<usize> = vec![0, 0, 0, 0, 0];
        let mut j: usize = 0;
        while j < graph.edges.len()
            invariant
                j <= graph.edges@.len(),
                es == graph_edges_view(graph.edges@),
                rel@.len() == 5,
                forall|t: RelationshipType| #[trigger] rel@[relationship_slot(t) as int] == count_relationship(es, t, j as int),
                forall|t: RelationshipType| #[trigger] count_relationship(es, t, j as int) <= j,
            decreases graph.edges@.len() - j,
        {
            let e = &graph.edges[j];
            assert(es[j as int] == e@);
            let s = relationship_slot_of(e.relationship);
            let c = rel[s];
            assert(c == count_relationship(es, e.relationship, j as int));
            rel.set(s, c + 1);
            proof {
                assert forall|t: RelationshipType| #[trigger] count_relationship(es, t, j + 1) <= j + 1 by {
                    assert(count_relationship(es, t, j as int) <= j);
                }
                assert forall|t: RelationshipType| #[trigger] rel@[relationship_slot(t) as int] == count_relationship(es, t, j + 1) by {
                    if t != e.relationship {
                        assert(relationship_slot(t) != relationship_slot(e.relationship));
                    }
                }
            }
            j = j + 1;
        }
        GraphSummary {
            total_nodes: graph.nodes.len(),
            total_edges: graph.edges.len(),
            node_counts: KindCounts { counts },
            relationship_counts: KindCounts { counts: rel },
            isolated_nodes: isolated,
        }
    }
}

/// `x` is within `n` hops of `f` over the edges in either direction.
pub open spec fn within(es: Seq<EdgeView>, f: Seq<char>, x: Seq<char>, n: nat) -> bool
    decreases n,
{
    if n == 0 {
        x == f
    } else {
        within(es, f, x, (n - 1) as nat) || exists|j: int| 0 <= j < es.len()
            && ((#[trigger] es[j].to == x && within(es, f, es[j].from, (n - 1) as nat))
                || (es[j].from == x && within(es, f, es[j].to, (n - 1) as nat)))
    }
}

/// Once a hop adds no name, no later hop does.
proof fn lemma_within_stable(es: Seq<EdgeView>, f: Seq<char>, n: nat, m: nat)
    requires
        n <= m,
        forall|x: Seq<char>| #[trigger] within(es, f, x, n + 1) == within(es, f, x, n),
    ensures
        forall|x: Seq<char>| #[trigger] within(es, f, x, m) == within(es, f, x, n),
    decreases m - n,
{
    if n < m {
        let k = (m - 1) as nat;
        lemma_within_stable(es, f, n, k);
        assert forall|x: Seq<char>| #[trigger] within(es, f, x, m) == within(es, f, x, n) by {
            assert(within(es, f, x, n + 1) == within(es, f, x, n));
            if within(es, f, x, m) {
                if !within(es, f, x, k) {
                    let j = choose|j: int| 0 <= j < es.len() && ((#[trigger] es[j].to == x && within(es, f, es[j].from, k))
                        || (es[j].from == x && within(es, f, es[j].to, k)));
                    assert(within(es, f, es[j].from, k) == within(es, f, es[j].from, n));
                    assert(within(es, f, es[j].to, k) == within(es, f, es[j].to, n));
                    assert(within(es, f, x, n + 1));
                }
            } else {
                assert(!within(es, f, x, k));
            }
        }
    }
}

/// Membership after one push.
proof fn lemma_push_contains(v: Seq<String>, s: String)
    ensures
        forall|x: Seq<char>| #[trigger] strs_view(v.push(s)).contains(x) <==> (strs_view(v).contains(x) || x == s@),
{
    assert forall|x: Seq<char>| #[trigger] strs_view(v.push(s)).contains(x) <==> (strs_view(v).contains(x) || x == s@) by {
        let w = strs_view(v.push(s));
        if w.contains(x) {
            let k = choose|k: int| 0 <= k < w.len() && w[k] == x;
            if k < v.len() {
                assert(strs_view(v)[k] == x);
            }
        }
        if strs_view(v).contains(x) {
            let k = choose|k: int| 0 <= k < strs_view(v).len() && strs_view(v)[k] == x;
            assert(w[k] == x);
        }
        if x == s@ {
            assert(w[v.len() as int] == x);
        }
    }
}

pub open spec fn kept_nodes(ns: Seq<NodeView>, keep: Seq<Seq<char>>, n: int) -> Seq<NodeView>
    decreases n,
{
    if n <= 0 {
        Seq::empty()
    } else if keep.contains(ns[n - 1].id) {
        kept_nodes(ns, keep, n - 1).push(ns[n - 1])
    } else {
        kept_nodes(ns, keep, n - 1)
    }
}

pub open spec fn kept_edges(es: Seq<EdgeView>, keep: Seq<Seq<char>>, n: int) -> Seq<EdgeView>
    decreases n,
{
    if n <= 0 {
        Seq::empty()
    } else if keep.contains(es[n - 1].from) && keep.contains(es[n - 1].to) {
        kept_edges(es, keep, n - 1).push(es[n - 1])
    } else {
        kept_edges(es, keep, n - 1)
    }
}

pub open spec fn has_edge(es: Seq<EdgeView>, from: Seq<char>, to: Seq<char>) -> bool {
    exists|i: int| 0 <= i < es.len() && (#[trigger] es[i]).from == from && es[i].to == to
}

pub open spec fn touches(es: Seq<EdgeView>, id: Seq<char>) -> bool {
    exists|i: int| 0 <= i < es.len() && ((#[trigger] es[i]).from == id || es[i].to == id)
}

pub open spec fn count_kind(ns: Seq<NodeView>, k: DeclarationKind, n: int) -> int
    decreases n,
{
    if n <= 0 { 0 } else { count_kind(ns, k, n - 1) + (if ns[n - 1].kind == k { 1int } else { 0int }) }
}

pub open spec fn count_relationship(es: Seq<EdgeView>, t: RelationshipType, n: int) -> int
    decreases n,
{
    if n <= 0 { 0 } else { count_relationship(es, t, n - 1) + (if es[n - 1].relationship == t { 1int } else { 0int }) }
}

pub open spec fn count_isolated(ns: Seq<NodeView>, es: Seq<EdgeView>, n: int) -> int
    decreases n,
{
    if n <= 0 { 0 } else { count_isolated(ns, es, n - 1) + (if touches(es, ns[n - 1].id) { 0int } else { 1int }) }
}

fn same_text(a: &String, b: &String) -> (r: bool)
    ensures
        r == (a@ == b@),
{
    let x = chars_of(a.as_str());
    let y = chars_of(b.as_str());
    crate::text::seq_eq(&x, &y)
}

/// Whether an edge leads from `from` to `to`.
fn edge_between(edges: &Vec<GraphEdge>, from: &String, to: &String) -> (r: bool)
    ensures
        r == has_edge(graph_edges_view(edges@), from@, to@),
{
    let ghost es = graph_edges_view(edges@);
    let mut i: usize = 0;
    while i < edges.len()
        invariant
            i <= edges@.len(),
            es == graph_edges_view(edges@),
            forall|j: int| 0 <= j < i ==> !((#[trigger] es[j]).from == from@ && es[j].to == to@),
        decreases edges@.len() - i,
    {
        assert(es[i as int] == edges@[i as int]@);
        if same_text(&edges[i].from, from) && same_text(&edges[i].to, to) {
            return true;
        }
        i = i + 1;
    }
    false
}

/// Whether an edge starts or ends at `id`.
fn touched(edges: &Vec<GraphEdge>, id: &String) -> (r: bool)
    ensures
        r == touches(graph_edges_view(edges@), id@),
{
    let ghost es = graph_edges_view(edges@);
    let mut i: usize = 0;
    while i < edges.len()
        invariant
            i <= edges@.len(),
            es == graph_edges_view(edges@),
            forall|j: int| 0 <= j < i ==> !((#[trigger] es[j]).from == id@ || es[j].to == id@),
        decreases edges@.len() - i,
    {
        assert(es[i as int] == edges@[i as int]@);
        if same_text(&edges[i].from, id) || same_text(&edges[i].to, id) {
            return true;
        }
        i = i + 1;
    }
    false
}

/// Every text comes no later than the ones after it.
pub open spec fn sorted_texts(ws: Seq<Seq<char>>) -> bool {
    forall|i: int, j: int| 0 <= i < j < ws.len() ==> lex_le(#[trigger] ws[i], #[trigger] ws[j])
}

/// The ids of the nodes, in order.
pub open spec fn node_ids(ns: Seq<NodeView>) -> Seq<Seq<char>> {
    ns.map_values(|n: NodeView| n.id)
}

/// Inserts `s` after every element that does not come after it.
fn insert_sorted(v: &mut Vec<String>, s: String)
    requires
        sorted_texts(strs_view(old(v)@)),
    ensures
        sorted_texts(strs_view(final(v)@)),
        strs_view(final(v)@).to_multiset() == strs_view(old(v)@).to_multiset().insert(s@),
{
    let ghost before = strs_view(v@);
    let mut pos: usize = 0;
    while pos < v.len() && lex_le_exec(&v[pos], &s)
        invariant
            pos <= v@.len(),
            before == strs_view(v@),
            forall|q: int| 0 <= q < pos ==> lex_le(#[trigger] before[q], s@),
        decreases v@.len() - pos,
    {
        pos = pos + 1;
    }
    let ghost x = s@;
    proof {
        if pos < before.len() {
            lemma_lex_total(before[pos as int], x);
        }
        assert forall|a: int, b: int| 0 <= a < b < before.len() + 1 implies lex_le(#[trigger] before.insert(pos as int, x)[a], #[trigger] before.insert(pos as int, x)[b]) by {
            let t = before.insert(pos as int, x);
            if a < pos && b < pos {
                assert(t[a] == before[a] && t[b] == before[b]);
            } else if a < pos && b == pos {
                assert(t[a] == before[a]);
            } else if a < pos && b > pos {
                assert(t[a] == before[a] && t[b] == before[b - 1]);
                if pos < b - 1 {
                    lemma_lex_trans(x, before[pos as int], before[b - 1]);
                }
                lemma_lex_trans(before[a], x, before[b - 1]);
            } else if a == pos {
                assert(t[b] == before[b - 1]);
                if pos < b - 1 {
                    lemma_lex_trans(x, before[pos as int], before[b - 1]);
                }
            } else {
                assert(t[a] == before[a - 1] && t[b] == before[b - 1]);
            }
        }
        vstd::seq_lib::to_multiset_insert(before, pos as int, x);
    }
    v.insert(pos, s);
    assert(strs_view(v@) =~= before.insert(pos as int, x));
}

} // verus!
