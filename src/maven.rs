//! Maven modules and the dependency graph between them.

use vstd::prelude::*;
use crate::ordered_map::{bind, OrderedMap};
use crate::types::strs_view;
use vstd::string::StringExecFns;

verus! {

/// A dependency declared by a module.
#[derive(Clone, Debug)]
pub struct MavenDependency {
    pub group_id: String,
    pub artifact_id: String,
    pub version: String,
    pub scope: Option<String>,
    pub optional: bool,
}

/// A Maven module and what it depends on.
#[derive(Clone, Debug)]
pub struct MavenModule {
    pub group_id: String,
    pub artifact_id: String,
    pub version: String,
    pub packaging: Option<String>,
    pub path: String,
    pub dependencies: Vec<MavenDependency>,
    pub submodules: Vec<String>,
}

/// The `group:artifact:version` coordinate.
pub open spec fn coordinate(g: Seq<char>, a: Seq<char>, v: Seq<char>) -> Seq<char> {
    g + ":"@ + a + ":"@ + v
}

fn build_coordinate(g: &String, a: &String, v: &String) -> (r: String)
    ensures
        r@ == coordinate(g@, a@, v@),
{
    let mut r = g.clone();
    r.append(":");
    r.append(a.as_str());
    r.append(":");
    r.append(v.as_str());
    r
}

pub open spec fn module_coordinate(m: MavenModule) -> Seq<char> {
    coordinate(m.group_id@, m.artifact_id@, m.version@)
}

pub open spec fn dependency_coordinate(d: MavenDependency) -> Seq<char> {
    coordinate(d.group_id@, d.artifact_id@, d.version@)
}

/// The coordinates of the first `n` dependencies of `m`.
pub open spec fn dep_coords_upto(ds: Seq<MavenDependency>, n: int) -> Seq<Seq<char>>
    decreases n,
{
    if n <= 0 {
        Seq::empty()
    } else {
        dep_coords_upto(ds, n - 1).push(dependency_coordinate(ds[n - 1]))
    }
}

pub open spec fn dep_coords(m: MavenModule) -> Seq<Seq<char>> {
    dep_coords_upto(m.dependencies@, m.dependencies@.len() as int)
}

fn dependency_coordinates(m: &MavenModule) -> (r: Vec<String>)
    ensures
        strs_view(r@) == dep_coords(*m),
{
    let mut out: Vec<String> = Vec::new();
    let mut i: usize = 0;
    while i < m.dependencies.len()
        invariant
            i <= m.dependencies@.len(),
            strs_view(out@) == dep_coords_upto(m.dependencies@, i as int),
        decreases m.dependencies@.len() - i,
    {
        let d = &m.dependencies[i];
        let c = build_coordinate(&d.group_id, &d.artifact_id, &d.version);
        proof {
            assert(strs_view(out@.push(c)) =~= strs_view(out@).push(c@));
        }
        out.push(c);
        i = i + 1;
    }
    out
}

pub open spec fn edge_view(e: (String, String)) -> (Seq<char>, Seq<char>) {
    (e.0@, e.1@)
}

pub open spec fn edges_view(es: Seq<(String, String)>) -> Seq<(Seq<char>, Seq<char>)> {
    es.map_values(|e: (String, String)| edge_view(e))
}

/// Edges from `from` to each of `tos`.
pub open spec fn fan_out(from: Seq<char>, tos: Seq<Seq<char>>) -> Seq<(Seq<char>, Seq<char>)> {
    tos.map_values(|t: Seq<char>| (from, t))
}

/// The edges of the first `n` modules: one from each module to each of its
/// dependencies, in order.
pub open spec fn module_edges_upto(ms: Seq<MavenModule>, n: int) -> Seq<(Seq<char>, Seq<char>)>
    decreases n,
{
    if n <= 0 {
        Seq::empty()
    } else {
        module_edges_upto(ms, n - 1) + fan_out(module_coordinate(ms[n - 1]), dep_coords(ms[n - 1]))
    }
}

/// The nodes of the first `n` modules: each coordinate bound to its path.
pub open spec fn module_nodes_upto(ms: Seq<MavenModule>, n: int) -> Seq<(Seq<char>, Seq<char>)>
    decreases n,
{
    if n <= 0 {
        Seq::empty()
    } else {
        bind(module_nodes_upto(ms, n - 1), module_coordinate(ms[n - 1]), ms[n - 1].path@)
    }
}

/// The ends of the edges that start at `id`, in order.
pub open spec fn targets_upto(es: Seq<(Seq<char>, Seq<char>)>, id: Seq<char>, n: int) -> Seq<Seq<char>>
    decreases n,
{
    if n <= 0 {
        Seq::empty()
    } else if es[n - 1].0 == id {
        targets_upto(es, id, n - 1).push(es[n - 1].1)
    } else {
        targets_upto(es, id, n - 1)
    }
}

/// The starts of the edges that end at `id`, in order.
pub open spec fn sources_upto(es: Seq<(Seq<char>, Seq<char>)>, id: Seq<char>, n: int) -> Seq<Seq<char>>
    decreases n,
{
    if n <= 0 {
        Seq::empty()
    } else if es[n - 1].1 == id {
        sources_upto(es, id, n - 1).push(es[n - 1].0)
    } else {
        sources_upto(es, id, n - 1)
    }
}

/// Mermaid lines for the first `n` edges.
pub open spec fn mermaid_edges_upto(es: Seq<(Seq<char>, Seq<char>)>, n: int) -> Seq<char>
    decreases n,
{
    if n <= 0 {
        Seq::empty()
    } else {
        mermaid_edges_upto(es, n - 1) + "    "@ + es[n - 1].0 + " --> "@ + es[n - 1].1 + "\n"@
    }
}

/// Modules as nodes (coordinate to path) and dependencies as edges.
#[derive(Clone, Debug)]
pub struct DependencyGraph {
    pub nodes: OrderedMap,
    pub edges: Vec<(String, String)>,
}

impl DependencyGraph {
    pub fn new() -> (r: DependencyGraph)
        ensures
            r.nodes.wf(),
            r.nodes.entries_view().len() == 0,
            r.edges@.len() == 0,
    {
        DependencyGraph { nodes: OrderedMap::new(), edges: Vec::new() }
    }

    /// Binds `id` to `path`, replacing an earlier path of the same id.
    pub fn add_node(&mut self, id: String, path: String)
        requires
            old(self).nodes.wf(),
        ensures
            final(self).nodes.wf(),
            final(self).nodes.entries_view() == bind(old(self).nodes.entries_view(), id@, path@),
            final(self).edges == old(self).edges,
    {
        self.nodes.insert(id, path);
    }

    /// Appends the edge `from -> to`.
    pub fn add_edge(&mut self, from: String, to: String)
        ensures
            edges_view(final(self).edges@) == edges_view(old(self).edges@).push((from@, to@)),
            final(self).nodes == old(self).nodes,
    {
        let e = (from, to);
        let ghost before = self.edges@;
        self.edges.push(e);
        assert(edges_view(self.edges@) =~= edges_view(before).push((e.0@, e.1@)));
    }

    /// What `module_id` depends on, in edge order.
    pub fn get_dependencies(&self, module_id: &str) -> (r: Vec<String>)
        ensures
            strs_view(r@) == targets_upto(edges_view(self.edges@), module_id@, self.edges@.len() as int),
    {
        let ghost es = edges_view(self.edges@);
        let k = crate::text::chars_of(module_id);
        let mut out: Vec<String> = Vec::new();
        let mut i: usize = 0;
        while i < self.edges.len()
            invariant
                i <= self.edges@.len(),
                es == edges_view(self.edges@),
                k@ == module_id@,
                strs_view(out@) == targets_upto(es, module_id@, i as int),
            decreases self.edges@.len() - i,
        {
            let f = crate::text::chars_of(self.edges[i].0.as_str());
            assert(es[i as int] == (self.edges@[i as int].0@, self.edges@[i as int].1@));
            if crate::text::seq_eq(&f, &k) {
                let t = self.edges[i].1.clone();
                proof {
                    assert(strs_view(out@.push(t)) =~= strs_view(out@).push(t@));
                }
                out.push(t);
            }
            i = i + 1;
        }
        out
    }

    /// What depends on `module_id`, in edge order.
    pub fn get_dependents(&self, module_id: &str) -> (r: Vec<String>)
        ensures
            strs_view(r@) == sources_upto(edges_view(self.edges@), module_id@, self.edges@.len() as int),
    {
        let ghost es = edges_view(self.edges@);
        let k = crate::text::chars_of(module_id);
        let mut out: Vec<String> = Vec::new();
        let mut i: usize = 0;
        while i < self.edges.len()
            invariant
                i <= self.edges@.len(),
                es == edges_view(self.edges@),
                k@ == module_id@,
                strs_view(out@) == sources_upto(es, module_id@, i as int),
            decreases self.edges@.len() - i,
        {
            let t = crate::text::chars_of(self.edges[i].1.as_str());
            assert(es[i as int] == (self.edges@[i as int].0@, self.edges@[i as int].1@));
            if crate::text::seq_eq(&t, &k) {
                let f = self.edges[i].0.clone();
                proof {
                    assert(strs_view(out@.push(f)) =~= strs_view(out@).push(f@));
                }
                out.push(f);
            }
            i = i + 1;
        }
        out
    }

    /// A Mermaid flowchart with one line per edge.
    pub fn to_mermaid(&self) -> (r: String)
        ensures
            r@ == "graph TD\n"@ + mermaid_edges_upto(edges_view(self.edges@), self.edges@.len() as int),
    {
        let ghost es = edges_view(self.edges@);
        let mut out = "graph TD\n".to_string();
        let mut i: usize = 0;
        while i < self.edges.len()
            invariant
                i <= self.edges@.len(),
                es == edges_view(self.edges@),
                out@ == "graph TD\n"@ + mermaid_edges_upto(es, i as int),
            decreases self.edges@.len() - i,
        {
            assert(es[i as int] == (self.edges@[i as int].0@, self.edges@[i as int].1@));
            out.append("    ");
            out.append(self.edges[i].0.as_str());
            out.append(" --> ");
            out.append(self.edges[i].1.as_str());
            out.append("\n");
            proof {
                let a = "graph TD\n"@;
                let m = mermaid_edges_upto(es, i as int);
                assert(out@ =~= a + (m + "    "@ + es[i as int].0 + " --> "@ + es[i as int].1 + "\n"@));
            }
            i = i + 1;
        }
        out
    }
}

/// The dependency lists of modules, keyed by coordinate, in order of first
/// appearance; a later module of the same coordinate replaces the list.
#[derive(Clone, Debug)]
pub struct DependencyTree {
    pub entries: Vec<(String, Vec<String>)>,
}

pub open spec fn tree_view(es: Seq<(String, Vec<String>)>) -> Seq<(Seq<char>, Seq<Seq<char>>)> {
    es.map_values(|e: (String, Vec<String>)| (e.0@, strs_view(e.1@)))
}

/// Where `key` stands among the keys of a tree's entries.
pub open spec fn tree_key_index(es: Seq<(Seq<char>, Seq<Seq<char>>)>, key: Seq<char>) -> Option<int> {
    if exists|i: int| 0 <= i < es.len() && es[i].0 == key {
        Some(choose|i: int| 0 <= i < es.len() && es[i].0 == key)
    } else {
        None
    }
}

pub open spec fn tree_bind(es: Seq<(Seq<char>, Seq<Seq<char>>)>, key: Seq<char>, deps: Seq<Seq<char>>) -> Seq<(Seq<char>, Seq<Seq<char>>)> {
    match tree_key_index(es, key) {
        Some(i) => es.update(i, (key, deps)),
        None => es.push((key, deps)),
    }
}

pub open spec fn tree_keys_unique(es: Seq<(Seq<char>, Seq<Seq<char>>)>) -> bool {
    forall|i: int, j: int| 0 <= i < es.len() && 0 <= j < es.len() && i != j ==> es[i].0 != es[j].0
}

/// The tree of the first `n` modules.
pub open spec fn tree_upto(ms: Seq<MavenModule>, n: int) -> Seq<(Seq<char>, Seq<Seq<char>>)>
    decreases n,
{
    if n <= 0 {
        Seq::empty()
    } else {
        tree_bind(tree_upto(ms, n - 1), module_coordinate(ms[n - 1]), dep_coords(ms[n - 1]))
    }
}

impl DependencyTree {
    /// The number of coordinates.
    pub fn len(&self) -> (r: usize)
        ensures
            r == self.entries@.len(),
    {
        self.entries.len()
    }

    fn position(&self, key: &str) -> (r: Option<usize>)
        requires
            tree_keys_unique(tree_view(self.entries@)),
        ensures
            r is Some <==> tree_key_index(tree_view(self.entries@), key@) is Some,
            r matches Some(i) ==> tree_key_index(tree_view(self.entries@), key@) == Some(i as int),
    {
        let ghost es = tree_view(self.entries@);
        let k = crate::text::chars_of(key);
        let mut i: usize = 0;
        while i < self.entries.len()
            invariant
                es == tree_view(self.entries@),
                tree_keys_unique(es),
                k@ == key@,
                i <= es.len(),
                forall|j: int| 0 <= j < i ==> es[j].0 != key@,
            decreases es.len() - i,
        {
            let e = crate::text::chars_of(self.entries[i].0.as_str());
            assert(es[i as int].0 == self.entries@[i as int].0@);
            if crate::text::seq_eq(&e, &k) {
                proof {
                    assert(es[i as int].0 == key@ && 0 <= i < es.len());
                    let j = choose|j: int| 0 <= j < es.len() && es[j].0 == key@;
                    assert(0 <= j < es.len() && es[j].0 == key@);
                    assert(j == i);
                }
                return Some(i);
            }
            i = i + 1;
        }
        None
    }

    /// The dependencies listed for `key`.
    pub fn get(&self, key: &str) -> (r: Option<&Vec<String>>)
        requires
            tree_keys_unique(tree_view(self.entries@)),
        ensures
            r is Some <==> tree_key_index(tree_view(self.entries@), key@) is Some,
            r matches Some(v) ==> strs_view(v@) == tree_view(self.entries@)[tree_key_index(tree_view(self.entries@), key@)->0].1,
    {
        match self.position(key) {
            Some(i) => Some(&self.entries[i].1),
            None => None,
        }
    }
}

/// Builds dependency graphs of Maven modules.
pub struct DependencyAnalyzer {}

impl DependencyAnalyzer {
    /// One node per module, bound to its path, and one edge from each
    /// module to each dependency, in order.
    pub fn analyze_dependencies(&self, modules: &[MavenModule]) -> (r: DependencyGraph)
        ensures
            r.nodes.wf(),
            r.nodes.entries_view() == module_nodes_upto(modules@, modules@.len() as int),
            edges_view(r.edges@) == module_edges_upto(modules@, modules@.len() as int),
    {
        let mut graph = DependencyGraph::new();
        assert(edges_view(graph.edges@) =~= Seq::empty());
        let mut i: usize = 0;
        while i < modules.len()
            invariant
                i <= modules@.len(),
                graph.nodes.wf(),
                graph.nodes.entries_view() == module_nodes_upto(modules@, i as int),
                edges_view(graph.edges@) == module_edges_upto(modules@, i as int),
            decreases modules@.len() - i,
        {
            let m = &modules[i];
            let id = build_coordinate(&m.group_id, &m.artifact_id, &m.version);
            graph.add_node(id.clone(), m.path.clone());
            let deps = dependency_coordinates(m);
            let ghost base = edges_view(graph.edges@);
            let mut j: usize = 0;
            while j < deps.len()
                invariant
                    j <= deps@.len(),
                    strs_view(deps@) == dep_coords(*m),
                    graph.nodes.wf(),
                    graph.nodes.entries_view() == module_nodes_upto(modules@, i + 1),
                    edges_view(graph.edges@) == base + fan_out(id@, strs_view(deps@).take(j as int)),
                decreases deps@.len() - j,
            {
                graph.add_edge(id.clone(), deps[j].clone());
                proof {
                    assert(strs_view(deps@).take(j + 1) =~= strs_view(deps@).take(j as int).push(deps@[j as int]@));
                    assert(fan_out(id@, strs_view(deps@).take(j + 1)) =~= fan_out(id@, strs_view(deps@).take(j as int)).push((id@, deps@[j as int]@)));
                }
                j = j + 1;
            }
            assert(strs_view(deps@).take(deps@.len() as int) =~= strs_view(deps@));
            i = i + 1;
        }
        graph
    }

    /// The dependency coordinates of each module, keyed by its coordinate.
    pub fn resolve_dependency_tree(&self, modules: &[MavenModule]) -> (r: DependencyTree)
        ensures
            tree_keys_unique(tree_view(r.entries@)),
            tree_view(r.entries@) == tree_upto(modules@, modules@.len() as int),
    {
        let mut tree = DependencyTree { entries: Vec::new() };
        assert(tree_view(tree.entries@) =~= Seq::empty());
        let mut i: usize = 0;
        while i < modules.len()
            invariant
                i <= modules@.len(),
                tree_keys_unique(tree_view(tree.entries@)),
                tree_view(tree.entries@) == tree_upto(modules@, i as int),
            decreases modules@.len() - i,
        {
            let m = &modules[i];
            let id = build_coordinate(&m.group_id, &m.artifact_id, &m.version);
            let deps = dependency_coordinates(m);
            let ghost es = tree_view(tree.entries@);
            match tree.position(id.as_str()) {
                Some(p) => {
                    let e = (id, deps);
                    tree.entries.set(p, e);
                    assert(tree_view(tree.entries@) =~= es.update(p as int, (e.0@, strs_view(e.1@))));
                },
                None => {
                    let e = (id, deps);
                    tree.entries.push(e);
                    assert(tree_view(tree.entries@) =~= es.push((e.0@, strs_view(e.1@))));
                },
            }
            i = i + 1;
        }
        tree
    }
}

} // verus!
