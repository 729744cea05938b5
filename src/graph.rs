//! The reference graph between declarations: nodes, typed edges, and the
//! type references that tie names together.

use vstd::prelude::*;
use crate::text::{chars_of, seq_eq};
use crate::types::{opt_view, strs_view, Declaration, DeclarationKind};
use vstd::string::StringExecFns;

verus! {

broadcast use vstd::string::group_string_axioms;

/// How one declaration relates to another.
#[derive(Clone, Copy, Debug, PartialEq, Eq, Hash, Structural)]
pub enum RelationshipType {
    Extends,
    Implements,
    Uses,
    References,
    DependsOn,
}

/// A declaration in the graph.
#[derive(Clone, Debug)]
pub struct GraphNode {
    pub id: String,
    pub label: String,
    pub kind: DeclarationKind,
    pub file_path: String,
}

/// A typed edge between two node ids.
#[derive(Clone, Debug)]
pub struct GraphEdge {
    pub from: String,
    pub to: String,
    pub relationship: RelationshipType,
}

/// Nodes and edges.
#[derive(Clone, Debug)]
pub struct ReferenceGraph {
    pub nodes: Vec<GraphNode>,
    pub edges: Vec<GraphEdge>,
}

pub struct NodeView {
    pub id: Seq<char>,
    pub label: Seq<char>,
    pub kind: DeclarationKind,
    pub file_path: Seq<char>,
}

impl View for GraphNode {
    type V = NodeView;

    open spec fn view(&self) -> NodeView {
        NodeView { id: self.id@, label: self.label@, kind: self.kind, file_path: self.file_path@ }
    }
}

pub struct EdgeView {
    pub from: Seq<char>,
    pub to: Seq<char>,
    pub relationship: RelationshipType,
}

impl View for GraphEdge {
    type V = EdgeView;

    open spec fn view(&self) -> EdgeView {
        EdgeView { from: self.from@, to: self.to@, relationship: self.relationship }
    }
}

pub open spec fn nodes_view(v: Seq<GraphNode>) -> Seq<NodeView> {
    v.map_values(|n: GraphNode| n@)
}

pub open spec fn graph_edges_view(v: Seq<GraphEdge>) -> Seq<EdgeView> {
    v.map_values(|e: GraphEdge| e@)
}

pub fn copy_node(n: &GraphNode) -> (r: GraphNode)
    ensures
        r@ == n@,
{
    GraphNode { id: n.id.clone(), label: n.label.clone(), kind: n.kind, file_path: n.file_path.clone() }
}

pub fn copy_edge(e: &GraphEdge) -> (r: GraphEdge)
    ensures
        r@ == e@,
{
    GraphEdge { from: e.from.clone(), to: e.to.clone(), relationship: e.relationship }
}

pub fn copy_strings(v: &Vec<String>) -> (r: Vec<String>)
    ensures
        strs_view(r@) == strs_view(v@),
{
    let mut out: Vec<String> = Vec::new();
    let mut i: usize = 0;
    while i < v.len()
        invariant
            i <= v@.len(),
            strs_view(out@) == strs_view(v@).take(i as int),
        decreases v@.len() - i,
    {
        let s = v[i].clone();
        proof {
            assert(strs_view(v@).take(i + 1) =~= strs_view(v@).take(i as int).push(v@[i as int]@));
            assert(strs_view(out@.push(s)) =~= strs_view(out@).push(s@));
        }
        out.push(s);
        i = i + 1;
    }
    assert(strs_view(v@).take(v@.len() as int) =~= strs_view(v@));
    out
}

/// Whether `s` is one of `v`.
pub fn contains_string(v: &Vec<String>, s: &str) -> (r: bool)
    ensures
        r == strs_view(v@).contains(s@),
{
    let k = chars_of(s);
    let mut i: usize = 0;
    while i < v.len()
        invariant
            i <= v@.len(),
            k@ == s@,
            forall|j: int| 0 <= j < i ==> v@[j]@ != s@,
        decreases v@.len() - i,
    {
        let e = chars_of(v[i].as_str());
        if seq_eq(&e, &k) {
            assert(strs_view(v@)[i as int] == s@);
            return true;
        }
        i = i + 1;
    }
    proof {
        if strs_view(v@).contains(s@) {
            let j = choose|j: int| 0 <= j < strs_view(v@).len() && strs_view(v@)[j] == s@;
            assert(v@[j]@ == s@);
        }
    }
    false
}

pub open spec fn refs_view(rs: Seq<(String, Vec<String>)>) -> Seq<(Seq<char>, Seq<Seq<char>>)> {
    rs.map_values(|e: (String, Vec<String>)| (e.0@, strs_view(e.1@)))
}

pub open spec fn node_ids_unique(ns: Seq<NodeView>) -> bool {
    forall|i: int, j: int| 0 <= i < ns.len() && 0 <= j < ns.len() && i != j ==> ns[i].id != ns[j].id
}

pub open spec fn ref_keys_unique(rs: Seq<(Seq<char>, Seq<Seq<char>>)>) -> bool {
    forall|i: int, j: int| 0 <= i < rs.len() && 0 <= j < rs.len() && i != j ==> rs[i].0 != rs[j].0
}

/// Builds a reference graph from declarations and type references.
pub struct GraphBuilder {
    nodes: Vec<GraphNode>,
    edges: Vec<GraphEdge>,
    type_references: Vec<(String, Vec<String>)>,
}

impl GraphBuilder {
    pub closed spec fn node_views(&self) -> Seq<NodeView> {
        nodes_view(self.nodes@)
    }

    pub closed spec fn edge_views(&self) -> Seq<EdgeView> {
        graph_edges_view(self.edges@)
    }

    /// Each referring name with the names it refers to.
    pub closed spec fn references(&self) -> Seq<(Seq<char>, Seq<Seq<char>>)> {
        refs_view(self.type_references@)
    }

    pub closed spec fn wf(&self) -> bool {
        &&& node_ids_unique(nodes_view(self.nodes@))
        &&& ref_keys_unique(refs_view(self.type_references@))
    }

    pub fn new() -> (r: GraphBuilder)
        ensures
            r.wf(),
            r.node_views().len() == 0,
            r.edge_views().len() == 0,
            r.references().len() == 0,
    {
        GraphBuilder { nodes: Vec::new(), edges: Vec::new(), type_references: Vec::new() }
    }

    fn node_position(&self, id: &str) -> (r: Option<usize>)
        ensures
            r matches Some(i) ==> i < self.nodes@.len() && self.nodes@[i as int].id@ == id@,
            r is None ==> forall|j: int| 0 <= j < self.nodes@.len() ==> self.nodes@[j].id@ != id@,
    {
        let k = chars_of(id);
        let mut i: usize = 0;
        while i < self.nodes.len()
            invariant
                i <= self.nodes@.len(),
                k@ == id@,
                forall|j: int| 0 <= j < i ==> self.nodes@[j].id@ != id@,
            decreases self.nodes@.len() - i,
        {
            let e = chars_of(self.nodes[i].id.as_str());
            if seq_eq(&e, &k) {
                return Some(i);
            }
            i = i + 1;
        }
        None
    }

    fn reference_position(&self, name: &str) -> (r: Option<usize>)
        ensures
            r matches Some(i) ==> i < self.type_references@.len() && self.type_references@[i as int].0@ == name@,
            r is None ==> forall|j: int| 0 <= j < self.type_references@.len() ==> self.type_references@[j].0@ != name@,
    {
        let k = chars_of(name);
        let mut i: usize = 0;
        while i < self.type_references.len()
            invariant
                i <= self.type_references@.len(),
                k@ == name@,
                forall|j: int| 0 <= j < i ==> self.type_references@[j].0@ != name@,
            decreases self.type_references@.len() - i,
        {
            let e = chars_of(self.type_references[i].0.as_str());
            if seq_eq(&e, &k) {
                return Some(i);
            }
            i = i + 1;
        }
        None
    }

    /// Appends an edge.
    pub fn add_edge(&mut self, from: String, to: String, relationship: RelationshipType)
        requires
            old(self).wf(),
        ensures
            final(self).wf(),
            final(self).edge_views() == old(self).edge_views().push(EdgeView { from: from@, to: to@, relationship }),
            final(self).node_views() == old(self).node_views(),
            final(self).references() == old(self).references(),
    {
        let e = GraphEdge { from, to, relationship };
        let ghost before = self.edges@;
        self.edges.push(e);
        assert(graph_edges_view(self.edges@) =~= graph_edges_view(before).push(e@));
    }

    /// Adds the node of a declaration found in `file_path`, with id
    /// `file_path:name`, replacing a node of the same id; then one edge to
    /// `extends:<superclass>` and one to `implements:<interface>` for each
    /// interface.
    pub fn add_declaration(&mut self, declaration: &Declaration, file_path: &str)
        requires
            old(self).wf(),
        ensures
            final(self).wf(),
            final(self).node_views() == put_node(old(self).node_views(), NodeView {
                id: file_path@ + ":"@ + declaration.name@,
                label: declaration.name@,
                kind: declaration.kind,
                file_path: file_path@,
            }),
            final(self).edge_views() == old(self).edge_views() + declaration_edges(
                file_path@ + ":"@ + declaration.name@,
                opt_view(declaration.extends),
                strs_view(declaration.implements@),
            ),
            final(self).references() == old(self).references(),
    {
        let mut node_id = file_path.to_string();
        node_id.append(":");
        node_id.append(declaration.name.as_str());
        let node = GraphNode {
            id: node_id.clone(),
            label: declaration.name.clone(),
            kind: declaration.kind,
            file_path: file_path.to_string(),
        };
        let ghost nv = node@;
        let ghost ns = self.nodes@;
        match self.node_position(node_id.as_str()) {
            Some(i) => {
                proof {
                    let j = choose|j: int| 0 <= j < nodes_view(ns).len() && nodes_view(ns)[j].id == nv.id;
                    assert(nodes_view(ns)[i as int].id == nv.id);
                    assert(0 <= j < nodes_view(ns).len() && nodes_view(ns)[j].id == nv.id);
                    assert(j == i);
                }
                self.nodes.set(i, node);
                proof {
                    assert(nodes_view(self.nodes@) =~= nodes_view(ns).update(i as int, nv));
                    assert(nodes_view(self.nodes@)[i as int] == nv);
                    assert forall|a: int, b: int| 0 <= a < self.nodes@.len() && 0 <= b < self.nodes@.len() && a != b implies
                        nodes_view(self.nodes@)[a].id != nodes_view(self.nodes@)[b].id by {
                        assert(nodes_view(ns)[a].id != nodes_view(ns)[b].id);
                        assert(nodes_view(ns)[i as int].id == nv.id);
                    }
                }
            },
            None => {
                proof {
                    assert forall|j: int| 0 <= j < nodes_view(ns).len() implies nodes_view(ns)[j].id != nv.id by {
                        assert(ns[j].id@ != node_id@);
                    }
                }
                self.nodes.push(node);
                proof {
                    assert(nodes_view(self.nodes@) =~= nodes_view(ns).push(nv));
                    assert(nodes_view(self.nodes@)[ns.len() as int] == nv);
                    assert forall|a: int, b: int| 0 <= a < self.nodes@.len() && 0 <= b < self.nodes@.len() && a != b implies
                        nodes_view(self.nodes@)[a].id != nodes_view(self.nodes@)[b].id by {
                        if a < ns.len() && b < ns.len() {
                            assert(nodes_view(ns)[a] == nodes_view(self.nodes@)[a]);
                            assert(nodes_view(ns)[b] == nodes_view(self.nodes@)[b]);
                        } else if a < ns.len() {
                            assert(ns[a].id@ != node_id@);
                        } else {
                            assert(ns[b].id@ != node_id@);
                        }
                    }
                }
            },
        }
        let ghost with_node = self.node_views();
        let ghost id = node_id@;
        let ghost ext_edges = match opt_view(declaration.extends) {
            Some(e) => seq![EdgeView { from: id, to: "extends:"@ + e, relationship: RelationshipType::Extends }],
            None => Seq::<EdgeView>::empty(),
        };
        let ghost impls = strs_view(declaration.implements@).map_values(|i: Seq<char>| EdgeView { from: id, to: "implements:"@ + i, relationship: RelationshipType::Implements });
        if let Some(ext) = &declaration.extends {
            let mut to = "extends:".to_string();
            to.append(ext.as_str());
            self.add_edge(node_id.clone(), to, RelationshipType::Extends);
        }
        assert(self.edge_views() =~= old(self).edge_views() + ext_edges + impls.take(0));
        let mut i: usize = 0;
        while i < declaration.implements.len()
            invariant
                i <= declaration.implements@.len(),
                node_id@ == id,
                impls == strs_view(declaration.implements@).map_values(|i: Seq<char>| EdgeView { from: id, to: "implements:"@ + i, relationship: RelationshipType::Implements }),
                self.wf(),
                self.node_views() == with_node,
                self.references() == old(self).references(),
                self.edge_views() == old(self).edge_views() + ext_edges + impls.take(i as int),
            decreases declaration.implements@.len() - i,
        {
            let mut to = "implements:".to_string();
            to.append(declaration.implements[i].as_str());
            self.add_edge(node_id.clone(), to, RelationshipType::Implements);
            assert(impls.take(i + 1) =~= impls.take(i as int).push(impls[i as int]));
            assert(self.edge_views() =~= old(self).edge_views() + ext_edges + impls.take(i + 1));
            i = i + 1;
        }
        assert(impls.take(declaration.implements@.len() as int) =~= impls);
        assert(self.edge_views() =~= old(self).edge_views() + declaration_edges(id, opt_view(declaration.extends), strs_view(declaration.implements@)));
    }

    /// Records that `from_type` refers to `to_type`; each referred name is
    /// kept once, in order of first reference.
    pub fn add_type_reference(&mut self, from_type: String, to_type: String)
        requires
            old(self).wf(),
        ensures
            final(self).wf(),
            final(self).references() == add_reference(old(self).references(), from_type@, to_type@),
            final(self).node_views() == old(self).node_views(),
            final(self).edge_views() == old(self).edge_views(),
    {
        let ghost rs = self.type_references@;
        let ghost rv = refs_view(rs);
        let ghost from = from_type@;
        let ghost to = to_type@;
        match self.reference_position(from_type.as_str()) {
            Some(i) => {
                proof {
                    let j = choose|j: int| 0 <= j < rv.len() && rv[j].0 == from;
                    assert(rv[i as int].0 == from);
                    assert(0 <= j < rv.len() && rv[j].0 == from);
                    assert(j == i);
                    assert(rv[i as int].1 == strs_view(rs[i as int].1@));
                }
                if !contains_string(&self.type_references[i].1, to_type.as_str()) {
                    let mut list = copy_strings(&self.type_references[i].1);
                    let ghost before_push = list@;
                    list.push(to_type);
                    assert(strs_view(list@) =~= strs_view(before_push).push(to));
                    let key = self.type_references[i].0.clone();
                    assert(key@ == from);
                    let e = (key, list);
                    self.type_references.set(i, e);
                    proof {
                        assert(refs_view(self.type_references@) =~= rv.update(i as int, (from, rv[i as int].1.push(to))));
                        assert forall|a: int, b: int| 0 <= a < self.type_references@.len() && 0 <= b < self.type_references@.len() && a != b implies
                            refs_view(self.type_references@)[a].0 != refs_view(self.type_references@)[b].0 by {
                            assert(refs_view(rs)[a].0 != refs_view(rs)[b].0);
                        }
                    }
                }
            },
            None => {
                proof {
                    assert forall|j: int| 0 <= j < rv.len() implies rv[j].0 != from by {
                        assert(rs[j].0@ != from);
                    }
                }
                let e = (from_type, vec![to_type]);
                self.type_references.push(e);
                proof {
                    assert(strs_view(e.1@) =~= seq![to]);
                    assert(refs_view(self.type_references@) =~= rv.push((from, seq![to])));
                    assert forall|a: int, b: int| 0 <= a < self.type_references@.len() && 0 <= b < self.type_references@.len() && a != b implies
                        refs_view(self.type_references@)[a].0 != refs_view(self.type_references@)[b].0 by {
                        if a < rs.len() && b < rs.len() {
                            assert(refs_view(rs)[a].0 != refs_view(rs)[b].0);
                        } else if a < rs.len() {
                            assert(rs[a].0@ != e.0@);
                        } else {
                            assert(rs[b].0@ != e.0@);
                        }
                    }
                }
            },
        }
    }

    /// A copy of the nodes and edges.
    pub fn build(&self) -> (r: ReferenceGraph)
        ensures
            nodes_view(r.nodes@) == self.node_views(),
            graph_edges_view(r.edges@) == self.edge_views(),
    {
        let mut nodes: Vec<GraphNode> = Vec::new();
        let mut i: usize = 0;
        while i < self.nodes.len()
            invariant
                i <= self.nodes@.len(),
                nodes_view(nodes@) == nodes_view(self.nodes@).take(i as int),
            decreases self.nodes@.len() - i,
        {
            let n = copy_node(&self.nodes[i]);
            proof {
                assert(nodes_view(self.nodes@).take(i + 1) =~= nodes_view(self.nodes@).take(i as int).push(self.nodes@[i as int]@));
                assert(nodes_view(nodes@.push(n)) =~= nodes_view(nodes@).push(n@));
            }
            nodes.push(n);
            i = i + 1;
        }
        let mut edges: Vec<GraphEdge> = Vec::new();
        let mut j: usize = 0;
        while j < self.edges.len()
            invariant
                j <= self.edges@.len(),
                nodes_view(nodes@) == nodes_view(self.nodes@).take(self.nodes@.len() as int),
                graph_edges_view(edges@) == graph_edges_view(self.edges@).take(j as int),
            decreases self.edges@.len() - j,
        {
            let e = copy_edge(&self.edges[j]);
            proof {
                assert(graph_edges_view(self.edges@).take(j + 1) =~= graph_edges_view(self.edges@).take(j as int).push(self.edges@[j as int]@));
                assert(graph_edges_view(edges@.push(e)) =~= graph_edges_view(edges@).push(e@));
            }
            edges.push(e);
            j = j + 1;
        }
        assert(nodes_view(self.nodes@).take(self.nodes@.len() as int) =~= nodes_view(self.nodes@));
        assert(graph_edges_view(self.edges@).take(self.edges@.len() as int) =~= graph_edges_view(self.edges@));
        ReferenceGraph { nodes, edges }
    }

    /// The names that `ty_name` refers to, in order of first reference.
    pub fn get_dependencies(&self, ty_name: &str) -> (r: Vec<String>)
        ensures
            (exists|i: int| 0 <= i < self.references().len() && self.references()[i].0 == ty_name@) ==>
                exists|i: int| 0 <= i < self.references().len() && self.references()[i].0 == ty_name@
                    && strs_view(r@) == self.references()[i].1,
            (forall|i: int| 0 <= i < self.references().len() ==> self.references()[i].0 != ty_name@) ==> r@.len() == 0,
    {
        match self.reference_position(ty_name) {
            Some(i) => {
                let r = copy_strings(&self.type_references[i].1);
                assert(self.references()[i as int].0 == ty_name@);
                r
            },
            None => Vec::new(),
        }
    }

    /// The names that refer to `ty_name`, in order of their first reference.
    pub fn get_dependents(&self, ty_name: &str) -> (r: Vec<String>)
        ensures
            strs_view(r@) == dependents_upto(self.references(), ty_name@, self.references().len() as int),
    {
        let ghost rs = self.references();
        let mut out: Vec<String> = Vec::new();
        let mut i: usize = 0;
        while i < self.type_references.len()
            invariant
                i <= self.type_references@.len(),
                rs == self.references(),
                rs == refs_view(self.type_references@),
                strs_view(out@) == dependents_upto(rs, ty_name@, i as int),
            decreases self.type_references@.len() - i,
        {
            assert(rs[i as int] == (self.type_references@[i as int].0@, strs_view(self.type_references@[i as int].1@)));
            if contains_string(&self.type_references[i].1, ty_name) {
                let f = self.type_references[i].0.clone();
                proof {
                    assert(strs_view(out@.push(f)) =~= strs_view(out@).push(f@));
                }
                out.push(f);
            }
            i = i + 1;
        }
        out
    }

    /// How many names `ty_name` refers to plus how many refer to it
    /// (saturating at `usize::MAX`).
    pub fn calculate_complexity(&self, ty_name: &str) -> (r: usize)
        requires
            self.wf(),
        ensures
            r as int == min_usize(referred_count(self.references(), ty_name@, 0)
                + dependents_upto(self.references(), ty_name@, self.references().len() as int).len()),
    {
        let ghost rs = self.references();
        let deps = match self.reference_position(ty_name) {
            Some(i) => {
                proof {
                    lemma_referred_count_at(rs, ty_name@, 0, i as int);
                }
                self.type_references[i].1.len()
            },
            None => {
                proof {
                    lemma_referred_count_none(rs, ty_name@, 0);
                }
                0
            },
        };
        let dependents = self.get_dependents(ty_name);
        assert(strs_view(dependents@).len() == dependents@.len());
        deps.saturating_add(dependents.len())
    }

    /// Every name known to the builder: node ids, then referring and
    /// referred names, each once, in order of first appearance.
    pub fn all_names(&self) -> (r: Vec<String>)
        ensures
            forall|i: int| 0 <= i < self.node_views().len() ==> strs_view(r@).contains(#[trigger] self.node_views()[i].id),
            forall|i: int| 0 <= i < self.references().len() ==> strs_view(r@).contains(#[trigger] self.references()[i].0),
    {
        let mut names: Vec<String> = Vec::new();
        let mut i: usize = 0;
        while i < self.nodes.len()
            invariant
                i <= self.nodes@.len(),
                forall|j: int| 0 <= j < i ==> strs_view(names@).contains(#[trigger] nodes_view(self.nodes@)[j].id),
            decreases self.nodes@.len() - i,
        {
            push_unique(&mut names, &self.nodes[i].id);
            i = i + 1;
        }
        let mut k: usize = 0;
        while k < self.type_references.len()
            invariant
                k <= self.type_references@.len(),
                forall|j: int| 0 <= j < self.nodes@.len() ==> strs_view(names@).contains(#[trigger] nodes_view(self.nodes@)[j].id),
                forall|j: int| 0 <= j < k ==> strs_view(names@).contains(#[trigger] refs_view(self.type_references@)[j].0),
            decreases self.type_references@.len() - k,
        {
            push_unique(&mut names, &self.type_references[k].0);
            let targets = &self.type_references[k].1;
            let mut t: usize = 0;
            while t < targets.len()
                invariant
                    k < self.type_references@.len(),
                    targets == self.type_references@[k as int].1,
                    t <= targets@.len(),
                    forall|j: int| 0 <= j < self.nodes@.len() ==> strs_view(names@).contains(#[trigger] nodes_view(self.nodes@)[j].id),
                    forall|j: int| 0 <= j <= k ==> strs_view(names@).contains(#[trigger] refs_view(self.type_references@)[j].0),
                decreases targets@.len() - t,
            {
                push_unique(&mut names, &targets[t]);
                t = t + 1;
            }
            k = k + 1;
        }
        names
    }

    /// The groups of names connected by type references in either
    /// direction, each starting with the first of its names to be met.
    /// Every known name (node ids, referring and referred names) is in one
    /// of them; no name is in two; in each group every name after the first
    /// is linked by a reference to a name before it.
    pub fn get_components(&self) -> (r: Vec<Vec<String>>)
        ensures
            forall|i: int| 0 <= i < r@.len() ==> (#[trigger] r@[i])@.len() > 0,
            forall|i: int| 0 <= i < r@.len() ==> no_dup(strs_view((#[trigger] r@[i])@)),
            forall|i: int| 0 <= i < r@.len() ==> grown_from_first(self.references(), strs_view((#[trigger] r@[i])@)),
            forall|a: int, b: int, x: Seq<char>| 0 <= a < b < r@.len()
                && #[trigger] strs_view(r@[a]@).contains(x) ==> !(#[trigger] strs_view(r@[b]@).contains(x)),
            forall|i: int| 0 <= i < self.node_views().len() ==>
                in_some_group(r@, #[trigger] self.node_views()[i].id),
            forall|i: int| 0 <= i < self.references().len() ==>
                in_some_group(r@, #[trigger] self.references()[i].0),
    {
        let names = self.all_names();
        let mut visited: Vec<String> = Vec::new();
        let mut components: Vec<Vec<String>> = Vec::new();
        let mut i: usize = 0;
        while i < names.len()
            invariant
                i <= names@.len(),
                forall|q: int| 0 <= q < components@.len() ==> (#[trigger] components@[q])@.len() > 0,
                forall|j: int| 0 <= j < i ==> strs_view(visited@).contains(#[trigger] names@[j]@),
                forall|x: Seq<char>| strs_view(visited@).contains(x) ==> in_some_group(components@, x),
                no_dup(strs_view(visited@)),
                forall|q: int, x: Seq<char>| 0 <= q < components@.len() && #[trigger] strs_view(components@[q]@).contains(x)
                    ==> strs_view(visited@).contains(x),
                forall|q: int| 0 <= q < components@.len() ==> no_dup(strs_view((#[trigger] components@[q])@)),
                forall|q: int| 0 <= q < components@.len() ==> grown_from_first(self.references(), strs_view((#[trigger] components@[q])@)),
                forall|a: int, b: int, x: Seq<char>| 0 <= a < b < components@.len()
                    && #[trigger] strs_view(components@[a]@).contains(x) ==> !(#[trigger] strs_view(components@[b]@).contains(x)),
            decreases names@.len() - i,
        {
            if !contains_string(&visited, names[i].as_str()) {
                let ghost old_visited = strs_view(visited@);
                let ghost old_components = components@;
                let component = self.bfs_component(&names[i], &mut visited, names.len());
                let ghost c = component;
                components.push(component);
                proof {
                    let cv = strs_view(c@);
                    assert(components@ == old_components.push(c));
                    lemma_no_dup_split(old_visited, cv);
                    assert forall|q: int, x: Seq<char>| 0 <= q < components@.len() && #[trigger] strs_view(components@[q]@).contains(x)
                        implies strs_view(visited@).contains(x) by {
                        if q < old_components.len() {
                            assert(components@[q] == old_components[q]);
                            assert(old_visited.contains(x));
                            let k = choose|k: int| 0 <= k < old_visited.len() && old_visited[k] == x;
                            assert(strs_view(visited@)[k] == x);
                        } else {
                            assert(components@[q] == c);
                            let k = choose|k: int| 0 <= k < cv.len() && cv[k] == x;
                            assert(strs_view(visited@)[old_visited.len() + k] == x);
                        }
                    }
                    assert forall|a: int, b: int, x: Seq<char>| 0 <= a < b < components@.len()
                        && #[trigger] strs_view(components@[a]@).contains(x) implies !(#[trigger] strs_view(components@[b]@).contains(x)) by {
                        assert(components@[a] == old_components[a]);
                        if b < old_components.len() {
                            assert(components@[b] == old_components[b]);
                        } else {
                            assert(components@[b] == c);
                            assert(old_visited.contains(x));
                        }
                    }
                    assert forall|q: int| 0 <= q < components@.len() implies no_dup(strs_view((#[trigger] components@[q])@)) by {
                        if q < old_components.len() {
                            assert(components@[q] == old_components[q]);
                        }
                    }
                    assert forall|q: int| 0 <= q < components@.len() implies grown_from_first(self.references(), strs_view((#[trigger] components@[q])@)) by {
                        if q < old_components.len() {
                            assert(components@[q] == old_components[q]);
                        }
                    }
                    assert forall|x: Seq<char>| strs_view(visited@).contains(x) implies in_some_group(components@, x) by {
                        let k = choose|k: int| 0 <= k < strs_view(visited@).len() && strs_view(visited@)[k] == x;
                        if k < old_visited.len() {
                            assert(old_visited[k] == x);
                            assert(in_some_group(old_components, x));
                            let q = choose|q: int| 0 <= q < old_components.len() && strs_view(old_components[q]@).contains(x);
                            assert(components@[q] == old_components[q]);
                        } else {
                            assert(strs_view(c@)[k - old_visited.len()] == x);
                            assert(components@[old_components.len() as int] == c);
                        }
                    }
                    assert forall|j: int| 0 <= j <= i implies strs_view(visited@).contains(#[trigger] names@[j]@) by {
                        if j < i {
                            let k = choose|k: int| 0 <= k < old_visited.len() && old_visited[k] == names@[j]@;
                            assert(strs_view(visited@)[k] == names@[j]@);
                        } else {
                            assert(strs_view(visited@)[old_visited.len() as int] == names@[j]@);
                        }
                    }
                }
            }
            i = i + 1;
        }
        proof {
            assert forall|x: Seq<char>| strs_view(names@).contains(x) implies in_some_group(components@, x) by {
                let j = choose|j: int| 0 <= j < strs_view(names@).len() && strs_view(names@)[j] == x;
                assert(strs_view(visited@).contains(names@[j]@));
            }
        }
        components
    }

    /// The names reachable from `start` over references in either
    /// direction that are not yet visited, in breadth-first order, starting
    /// with `start`; at most `bound` names are taken. Each name taken is
    /// also marked visited.
    fn bfs_component(&self, start: &String, visited: &mut Vec<String>, bound: usize) -> (r: Vec<String>)
        requires
            no_dup(strs_view(old(visited)@)),
            !strs_view(old(visited)@).contains(start@),
        ensures
            r@.len() > 0,
            r@[0]@ == start@,
            strs_view(final(visited)@) == strs_view(old(visited)@) + strs_view(r@),
            no_dup(strs_view(final(visited)@)),
            grown_from_first(self.references(), strs_view(r@)),
    {
        let ghost rs = self.references();
        let ghost base = strs_view(visited@);
        let mut queue: Vec<String> = Vec::new();
        queue.push(start.clone());
        visited.push(start.clone());
        assert(strs_view(visited@) =~= base + strs_view(queue@));
        proof {
            lemma_push_no_dup(base, start@);
            assert(base.push(start@) =~= base + strs_view(queue@));
            assert(grown_from_first(rs, strs_view(queue@)));
        }
        let mut head: usize = 0;
        while head < queue.len() && head <= bound
            invariant
                queue@.len() > 0,
                queue@[0]@ == start@,
                head <= queue@.len(),
                rs == self.references(),
                strs_view(visited@) == base + strs_view(queue@),
                no_dup(strs_view(visited@)),
                grown_from_first(rs, strs_view(queue@)),
            decreases bound + 1 - head,
        {
            let node = queue[head].clone();
            head = head + 1;
            let mut k: usize = 0;
            while k < self.type_references.len()
                invariant
                    queue@.len() > 0,
                    queue@[0]@ == start@,
                    1 <= head <= queue@.len(),
                    strs_view(queue@)[head - 1] == node@,
                    k <= self.type_references@.len(),
                    rs == self.references(),
                    strs_view(visited@) == base + strs_view(queue@),
                    no_dup(strs_view(visited@)),
                    grown_from_first(rs, strs_view(queue@)),
                decreases self.type_references@.len() - k,
            {
                let from = &self.type_references[k].0;
                let targets = &self.type_references[k].1;
                let from_chars = chars_of(from.as_str());
                let node_chars = chars_of(node.as_str());
                if seq_eq(&from_chars, &node_chars) {
                    let mut t: usize = 0;
                    while t < targets.len()
                        invariant
                            queue@.len() > 0,
                            queue@[0]@ == start@,
                            1 <= head <= queue@.len(),
                            strs_view(queue@)[head - 1] == node@,
                            k < self.type_references@.len(),
                            targets == self.type_references@[k as int].1,
                            self.type_references@[k as int].0@ == node@,
                            t <= targets@.len(),
                            rs == self.references(),
                            strs_view(visited@) == base + strs_view(queue@),
                            no_dup(strs_view(visited@)),
                            grown_from_first(rs, strs_view(queue@)),
                        decreases targets@.len() - t,
                    {
                        proof {
                            assert(rs[k as int] == (self.type_references@[k as int].0@, strs_view(targets@)));
                            assert(strs_view(targets@)[t as int] == targets@[t as int]@);
                            assert(rs[k as int].1.contains(targets@[t as int]@));
                            assert(refers(rs, node@, targets@[t as int]@));
                        }
                        if !contains_string(visited, targets[t].as_str()) {
                            let ghost vv = visited@;
                            let ghost qq = queue@;
                            let name = targets[t].clone();
                            let copy = name.clone();
                            visited.push(copy);
                            queue.push(name);
                            proof {
                                assert(strs_view(visited@) =~= strs_view(vv).push(copy@));
                                assert(strs_view(queue@) =~= strs_view(qq).push(name@));
                                assert(strs_view(visited@) =~= base + strs_view(queue@));
                                lemma_push_no_dup(strs_view(vv), name@);
                                lemma_grow(rs, strs_view(qq), name@, head - 1);
                            }
                        }
                        t = t + 1;
                    }
                }
                if contains_string(targets, node.as_str()) && !contains_string(visited, from.as_str()) {
                    proof {
                        assert(rs[k as int] == (from@, strs_view(targets@)));
                        assert(refers(rs, from@, node@));
                    }
                    let ghost vv = visited@;
                    let ghost qq = queue@;
                    let name = from.clone();
                    let copy = name.clone();
                    visited.push(copy);
                    queue.push(name);
                    proof {
                        assert(strs_view(visited@) =~= strs_view(vv).push(copy@));
                        assert(strs_view(queue@) =~= strs_view(qq).push(name@));
                        assert(strs_view(visited@) =~= base + strs_view(queue@));
                        lemma_push_no_dup(strs_view(vv), name@);
                        lemma_grow(rs, strs_view(qq), name@, head - 1);
                    }
                }
                k = k + 1;
            }
        }
        queue
    }

    /// Cycles of references among the nodes, found depth first from each
    /// node not yet visited; each cycle is the path from the repeated name
    /// to the name that leads back to it, and each of its names refers to
    /// the next, the last to the first.
    pub fn find_cycles(&self) -> (r: Vec<Vec<String>>)
        ensures
            forall|i: int| 0 <= i < r@.len() ==> is_cycle(self.references(), strs_view((#[trigger] r@[i])@)),
    {
        let names = self.all_names();
        let mut visited: Vec<String> = Vec::new();
        let mut on_path: Vec<String> = Vec::new();
        let mut cycles: Vec<Vec<String>> = Vec::new();
        let mut i: usize = 0;
        while i < self.nodes.len()
            invariant
                i <= self.nodes@.len(),
                strs_view(on_path@).len() == 0,
                forall|q: int| 0 <= q < cycles@.len() ==> is_cycle(self.references(), strs_view((#[trigger] cycles@[q])@)),
            decreases self.nodes@.len() - i,
        {
            if !contains_string(&visited, self.nodes[i].id.as_str()) {
                assert(chained(self.references(), strs_view(on_path@)));
                self.dfs_find_cycle(&self.nodes[i].id, &mut visited, &mut on_path, &mut cycles, names.len());
            }
            i = i + 1;
        }
        cycles
    }

    fn dfs_find_cycle(
        &self,
        node: &String,
        visited: &mut Vec<String>,
        on_path: &mut Vec<String>,
        cycles: &mut Vec<Vec<String>>,
        depth: usize,
    )
        requires
            chained(self.references(), strs_view(old(on_path)@)),
            strs_view(old(on_path)@).len() > 0 ==> refers(self.references(), strs_view(old(on_path)@).last(), node@),
            forall|q: int| 0 <= q < old(cycles)@.len() ==> is_cycle(self.references(), strs_view((#[trigger] old(cycles)@[q])@)),
        ensures
            strs_view(final(on_path)@) == strs_view(old(on_path)@),
            forall|q: int| 0 <= q < final(cycles)@.len() ==> is_cycle(self.references(), strs_view((#[trigger] final(cycles)@[q])@)),
        decreases depth,
    {
        let ghost rs = self.references();
        let ghost base = strs_view(on_path@);
        visited.push(node.clone());
        let ghost before_push = on_path@;
        on_path.push(node.clone());
        let ghost path = strs_view(on_path@);
        proof {
            assert(path =~= base.push(node@));
            assert forall|x: int| 0 <= x && x + 1 < path.len() implies #[trigger] refers(rs, path[x], path[x + 1]) by {
                if x + 1 < base.len() {
                    assert(path[x] == base[x] && path[x + 1] == base[x + 1]);
                    assert(refers(rs, base[x], base[x + 1]));
                } else {
                    assert(path[x] == base.last() && path[x + 1] == node@);
                }
            }
        }
        if depth > 0 {
            if let Some(k) = self.reference_position(node.as_str()) {
                let targets = &self.type_references[k].1;
                let mut t: usize = 0;
                while t < targets.len()
                    invariant
                        t <= targets@.len(),
                        depth > 0,
                        k < self.type_references@.len(),
                        targets == self.type_references@[k as int].1,
                        self.type_references@[k as int].0@ == node@,
                        rs == self.references(),
                        path == base.push(node@),
                        strs_view(on_path@) == path,
                        chained(rs, path),
                        forall|q: int| 0 <= q < cycles@.len() ==> is_cycle(rs, strs_view((#[trigger] cycles@[q])@)),
                    decreases targets@.len() - t,
                {
                    let dep = &targets[t];
                    proof {
                        assert(rs[k as int] == (self.type_references@[k as int].0@, strs_view(targets@)));
                        assert(strs_view(targets@)[t as int] == dep@);
                        assert(rs[k as int].1.contains(dep@));
                        assert(refers(rs, node@, dep@));
                        assert(path.last() == node@);
                    }
                    if !contains_string(visited, dep.as_str()) {
                        self.dfs_find_cycle(dep, visited, on_path, cycles, depth - 1);
                    } else {
                        let dep_chars = chars_of(dep.as_str());
                        let mut start: usize = 0;
                        let mut found = false;
                        while start < on_path.len() && !found
                            invariant
                                start <= on_path@.len(),
                                found ==> start < on_path@.len() && on_path@[start as int]@ == dep@,
                                dep_chars@ == dep@,
                            decreases on_path@.len() - start + (if found { 0int } else { 1int }),
                        {
                            let p = chars_of(on_path[start].as_str());
                            if seq_eq(&p, &dep_chars) {
                                found = true;
                            } else {
                                start = start + 1;
                            }
                        }
                        if found {
                            let mut cycle: Vec<String> = Vec::new();
                            let mut c: usize = start;
                            while c < on_path.len()
                                invariant
                                    start < on_path@.len(),
                                    start <= c <= on_path@.len(),
                                    strs_view(cycle@) == path.subrange(start as int, c as int),
                                    strs_view(on_path@) == path,
                                decreases on_path@.len() - c,
                            {
                                let ghost before = cycle@;
                                cycle.push(on_path[c].clone());
                                proof {
                                    assert(strs_view(cycle@) =~= strs_view(before).push(path[c as int]));
                                    assert(path.subrange(start as int, c + 1) =~= path.subrange(start as int, c as int).push(path[c as int]));
                                }
                                c = c + 1;
                            }
                            proof {
                                let cy = strs_view(cycle@);
                                assert(cy == path.subrange(start as int, path.len() as int));
                                assert(cy[0] == dep@);
                                assert(cy.last() == node@);
                                assert forall|x: int| 0 <= x && x + 1 < cy.len() implies #[trigger] refers(rs, cy[x], cy[x + 1]) by {
                                    assert(cy[x] == path[start + x] && cy[x + 1] == path[start + x + 1]);
                                    assert(refers(rs, path[start + x], path[start + x + 1]));
                                }
                                assert(is_cycle(rs, cy));
                            }
                            let ghost before_cycles = cycles@;
                            cycles.push(cycle);
                            proof {
                                assert forall|q: int| 0 <= q < cycles@.len() implies is_cycle(rs, strs_view((#[trigger] cycles@[q])@)) by {
                                    if q < before_cycles.len() {
                                        assert(cycles@[q] == before_cycles[q]);
                                    }
                                }
                            }
                        }
                    }
                    t = t + 1;
                }
            }
        }
        assert(strs_view(on_path@) == path);
        let ghost full = on_path@;
        on_path.pop();
        proof {
            assert(on_path@ == full.subrange(0, full.len() - 1));
            assert(path.drop_last() =~= base);
            assert(strs_view(on_path@) =~= strs_view(full).drop_last());
        }
    }
}

/// No element occurs twice.
pub open spec fn no_dup(s: Seq<Seq<char>>) -> bool {
    forall|i: int, j: int| 0 <= i < s.len() && 0 <= j < s.len() && i != j ==> s[i] != s[j]
}

/// One of the two names refers to the other.
pub open spec fn linked(rs: Seq<(Seq<char>, Seq<Seq<char>>)>, a: Seq<char>, b: Seq<char>) -> bool {
    refers(rs, a, b) || refers(rs, b, a)
}

/// Every name after the first is linked to a name before it.
pub open spec fn grown_from_first(rs: Seq<(Seq<char>, Seq<Seq<char>>)>, g: Seq<Seq<char>>) -> bool {
    forall|j: int| 0 < j < g.len() ==> #[trigger] linked_before(rs, g, j)
}

/// The name at `j` is linked to a name before it.
pub open spec fn linked_before(rs: Seq<(Seq<char>, Seq<Seq<char>>)>, g: Seq<Seq<char>>, j: int) -> bool {
    exists|p: int| 0 <= p < j && #[trigger] linked(rs, g[p], g[j])
}

proof fn lemma_push_no_dup(s: Seq<Seq<char>>, x: Seq<char>)
    requires
        no_dup(s),
        !s.contains(x),
    ensures
        no_dup(s.push(x)),
{
    let t = s.push(x);
    assert forall|i: int, j: int| 0 <= i < t.len() && 0 <= j < t.len() && i != j implies t[i] != t[j] by {
        if i < s.len() && j < s.len() {
            assert(t[i] == s[i] && t[j] == s[j]);
        } else if i < s.len() {
            assert(t[i] == s[i]);
        } else {
            assert(t[j] == s[j]);
        }
    }
}

proof fn lemma_grow(rs: Seq<(Seq<char>, Seq<Seq<char>>)>, g: Seq<Seq<char>>, x: Seq<char>, p: int)
    requires
        grown_from_first(rs, g),
        0 <= p < g.len(),
        linked(rs, g[p], x),
    ensures
        grown_from_first(rs, g.push(x)),
{
    let t = g.push(x);
    assert forall|j: int| 0 < j < t.len() implies #[trigger] linked_before(rs, t, j) by {
        if j < g.len() {
            assert(linked_before(rs, g, j));
            let q = choose|q: int| 0 <= q < j && #[trigger] linked(rs, g[q], g[j]);
            assert(t[q] == g[q] && t[j] == g[j]);
            assert(linked(rs, t[q], t[j]));
        } else {
            assert(t[p] == g[p] && t[j] == x);
            assert(linked(rs, t[p], t[j]));
        }
    }
}

/// Two sequences whose concatenation has no repeats share no element and
/// have no repeats themselves.
proof fn lemma_no_dup_split(a: Seq<Seq<char>>, b: Seq<Seq<char>>)
    requires
        no_dup(a + b),
    ensures
        no_dup(b),
        forall|x: Seq<char>| a.contains(x) ==> !b.contains(x),
{
    let t = a + b;
    assert forall|i: int, j: int| 0 <= i < b.len() && 0 <= j < b.len() && i != j implies b[i] != b[j] by {
        assert(t[a.len() + i] == b[i] && t[a.len() + j] == b[j]);
    }
    assert forall|x: Seq<char>| a.contains(x) implies !b.contains(x) by {
        if b.contains(x) {
            let i = choose|i: int| 0 <= i < a.len() && a[i] == x;
            let j = choose|j: int| 0 <= j < b.len() && b[j] == x;
            assert(t[i] == x && t[a.len() + j] == x);
        }
    }
}

/// `a` refers to `b`.
pub open spec fn refers(rs: Seq<(Seq<char>, Seq<Seq<char>>)>, a: Seq<char>, b: Seq<char>) -> bool {
    exists|k: int| 0 <= k < rs.len() && rs[k].0 == a && rs[k].1.contains(b)
}

/// Each name of `p` refers to the next.
pub open spec fn chained(rs: Seq<(Seq<char>, Seq<Seq<char>>)>, p: Seq<Seq<char>>) -> bool {
    forall|x: int| 0 <= x && x + 1 < p.len() ==> #[trigger] refers(rs, p[x], p[x + 1])
}

/// A non-empty chain whose last name refers back to its first.
pub open spec fn is_cycle(rs: Seq<(Seq<char>, Seq<Seq<char>>)>, c: Seq<Seq<char>>) -> bool {
    c.len() > 0 && chained(rs, c) && refers(rs, c.last(), c[0])
}

/// Where the node with id `id` stands.
pub open spec fn node_index(ns: Seq<NodeView>, id: Seq<char>) -> Option<int> {
    if exists|i: int| 0 <= i < ns.len() && ns[i].id == id {
        Some(choose|i: int| 0 <= i < ns.len() && ns[i].id == id)
    } else {
        None
    }
}

/// `ns` with `n` in place of the node of the same id, or `n` added at the end.
pub open spec fn put_node(ns: Seq<NodeView>, n: NodeView) -> Seq<NodeView> {
    match node_index(ns, n.id) {
        Some(i) => ns.update(i, n),
        None => ns.push(n),
    }
}

/// The edges that a declaration with node id `id` adds.
pub open spec fn declaration_edges(id: Seq<char>, extends: Option<Seq<char>>, implements: Seq<Seq<char>>) -> Seq<EdgeView> {
    (match extends {
        Some(e) => seq![EdgeView { from: id, to: "extends:"@ + e, relationship: RelationshipType::Extends }],
        None => Seq::empty(),
    }) + implements.map_values(|i: Seq<char>| EdgeView { from: id, to: "implements:"@ + i, relationship: RelationshipType::Implements })
}

/// Where the entry of the referring name `name` stands.
pub open spec fn ref_index(rs: Seq<(Seq<char>, Seq<Seq<char>>)>, name: Seq<char>) -> Option<int> {
    if exists|i: int| 0 <= i < rs.len() && rs[i].0 == name {
        Some(choose|i: int| 0 <= i < rs.len() && rs[i].0 == name)
    } else {
        None
    }
}

/// `rs` after recording that `from` refers to `to`: `to` is added to the
/// list of `from` unless already there; a new entry is added for a new
/// `from`.
pub open spec fn add_reference(rs: Seq<(Seq<char>, Seq<Seq<char>>)>, from: Seq<char>, to: Seq<char>) -> Seq<(Seq<char>, Seq<Seq<char>>)> {
    match ref_index(rs, from) {
        Some(i) => if rs[i].1.contains(to) { rs } else { rs.update(i, (from, rs[i].1.push(to))) },
        None => rs.push((from, seq![to])),
    }
}

/// `x` is one of the names of one of the groups.
pub open spec fn in_some_group(groups: Seq<Vec<String>>, x: Seq<char>) -> bool {
    exists|q: int| 0 <= q < groups.len() && strs_view(groups[q]@).contains(x)
}

pub open spec fn min_usize(x: int) -> int {
    if x <= usize::MAX { x } else { usize::MAX as int }
}

/// The number of names referred to by the first entry for `name` at or
/// after `i`; 0 when there is none.
pub open spec fn referred_count(rs: Seq<(Seq<char>, Seq<Seq<char>>)>, name: Seq<char>, i: int) -> int
    decreases rs.len() - i,
{
    if i < 0 || i >= rs.len() {
        0
    } else if rs[i].0 == name {
        rs[i].1.len() as int
    } else {
        referred_count(rs, name, i + 1)
    }
}

proof fn lemma_referred_count_at(rs: Seq<(Seq<char>, Seq<Seq<char>>)>, name: Seq<char>, i: int, k: int)
    requires
        0 <= i <= k < rs.len(),
        rs[k].0 == name,
        ref_keys_unique(rs) || forall|j: int| i <= j < k ==> rs[j].0 != name,
    ensures
        referred_count(rs, name, i) == rs[k].1.len(),
    decreases k - i,
{
    if i < k {
        assert(rs[i].0 != name);
        lemma_referred_count_at(rs, name, i + 1, k);
    }
}

proof fn lemma_referred_count_none(rs: Seq<(Seq<char>, Seq<Seq<char>>)>, name: Seq<char>, i: int)
    requires
        0 <= i,
        forall|j: int| 0 <= j < rs.len() ==> rs[j].0 != name,
    ensures
        referred_count(rs, name, i) == 0,
    decreases rs.len() - i,
{
    if i < rs.len() {
        lemma_referred_count_none(rs, name, i + 1);
    }
}

/// The referring names among the first `n` entries whose list holds `name`.
pub open spec fn dependents_upto(rs: Seq<(Seq<char>, Seq<Seq<char>>)>, name: Seq<char>, n: int) -> Seq<Seq<char>>
    decreases n,
{
    if n <= 0 {
        Seq::empty()
    } else if rs[n - 1].1.contains(name) {
        dependents_upto(rs, name, n - 1).push(rs[n - 1].0)
    } else {
        dependents_upto(rs, name, n - 1)
    }
}

/// Appends `s` to `v` unless it is already there.
pub fn push_unique(v: &mut Vec<String>, s: &String)
    ensures
        strs_view(final(v)@).contains(s@),
        forall|x: Seq<char>| strs_view(old(v)@).contains(x) ==> strs_view(final(v)@).contains(x),
{
    if contains_string(v, s.as_str()) {
        return;
    }
    let ghost before = v@;
    v.push(s.clone());
    proof {
        assert(strs_view(v@) =~= strs_view(before).push(s@));
        assert(strs_view(v@)[before.len() as int] == s@);
        assert forall|x: Seq<char>| strs_view(before).contains(x) implies strs_view(v@).contains(x) by {
            let j = choose|j: int| 0 <= j < strs_view(before).len() && strs_view(before)[j] == x;
            assert(strs_view(v@)[j] == x);
        }
    }
}

} // verus!
