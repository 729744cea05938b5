use code_insight::graph::{GraphBuilder, GraphEdge, GraphNode, ReferenceGraph, RelationshipType};
use code_insight::types::{Declaration, DeclarationKind, SourceRange};
use code_insight::visualization::{Direction, GraphVisualizer, VisualizationConfig};

fn node(id: &str, kind: DeclarationKind, path: &str) -> GraphNode {
    GraphNode { id: id.to_string(), label: id.to_string(), kind, file_path: path.to_string() }
}

fn edge(from: &str, to: &str, relationship: RelationshipType) -> GraphEdge {
    GraphEdge { from: from.to_string(), to: to.to_string(), relationship }
}

#[test]
fn test_graph_builder() {
    let mut builder = GraphBuilder::new();
    let declaration = Declaration {
        name: "UserService".to_string(),
        fqn: "UserService".to_string(),
        kind: DeclarationKind::Class,
        modifiers: vec!["public".to_string()],
        annotations: vec![],
        signature: "public class UserService".to_string(),
        extends: Some("BaseService".to_string()),
        implements: vec!["UserInterface".to_string()],
        type_parameters: vec![],
        fields: vec![],
        methods: vec![],
        nested: vec![],
        range: SourceRange { start_line: 1, start_column: 1, end_line: 10, end_column: 1 },
        documentation: None,
    };
    builder.add_declaration(&declaration, "/tmp/UserService.java");
    let graph = builder.build();
    assert_eq!(graph.nodes.len(), 1);
    assert_eq!(graph.edges.len(), 2);
    assert_eq!(graph.nodes[0].label, "UserService");
    assert_eq!(graph.nodes[0].id, "/tmp/UserService.java:UserService");
    assert_eq!(graph.edges[0].to, "extends:BaseService");
    assert_eq!(graph.edges[1].to, "implements:UserInterface");
}

#[test]
fn test_type_references() {
    let mut builder = GraphBuilder::new();
    builder.add_type_reference("UserService".to_string(), "UserRepository".to_string());
    builder.add_type_reference("UserService".to_string(), "User".to_string());
    builder.add_type_reference("UserController".to_string(), "UserService".to_string());
    assert_eq!(builder.get_dependencies("UserService"), vec!["UserRepository", "User"]);
    assert_eq!(builder.get_dependents("UserService"), vec!["UserController"]);
}

#[test]
fn repeated_reference_kept_once_and_complexity() {
    let mut builder = GraphBuilder::new();
    builder.add_type_reference("A".to_string(), "B".to_string());
    builder.add_type_reference("A".to_string(), "B".to_string());
    builder.add_type_reference("C".to_string(), "A".to_string());
    assert_eq!(builder.get_dependencies("A"), vec!["B"]);
    assert_eq!(builder.calculate_complexity("A"), 2);
    assert!(builder.get_dependencies("missing").is_empty());
}

#[test]
fn test_components() {
    let mut builder = GraphBuilder::new();
    builder.add_type_reference("A".to_string(), "B".to_string());
    builder.add_type_reference("B".to_string(), "C".to_string());
    builder.add_type_reference("X".to_string(), "Y".to_string());
    let components = builder.get_components();
    assert_eq!(components.len(), 2);
    assert!(components.iter().any(|c| c.contains(&"A".to_string())));
    assert!(components.iter().any(|c| c.contains(&"X".to_string())));
}

#[test]
fn cycles_among_nodes() {
    let mut builder = GraphBuilder::new();
    let d = |name: &str| Declaration {
        name: name.to_string(),
        fqn: name.to_string(),
        kind: DeclarationKind::Class,
        modifiers: vec![],
        annotations: vec![],
        signature: format!("class {}", name),
        extends: None,
        implements: vec![],
        type_parameters: vec![],
        fields: vec![],
        methods: vec![],
        nested: vec![],
        range: SourceRange { start_line: 1, start_column: 1, end_line: 1, end_column: 1 },
        documentation: None,
    };
    builder.add_declaration(&d("A"), "p");
    builder.add_type_reference("p:A".to_string(), "p:B".to_string());
    builder.add_type_reference("p:B".to_string(), "p:A".to_string());
    let cycles = builder.find_cycles();
    assert_eq!(cycles, vec![vec!["p:A".to_string(), "p:B".to_string()]]);
}

#[test]
fn test_mermaid_generation() {
    let visualizer = GraphVisualizer {};
    let config = VisualizationConfig::default();
    let graph = ReferenceGraph {
        nodes: vec![
            node("UserService", DeclarationKind::Class, "/test/UserService.java"),
            node("UserRepository", DeclarationKind::Interface, "/test/UserRepository.java"),
        ],
        edges: vec![edge("UserService", "UserRepository", RelationshipType::Uses)],
    };
    let mermaid = visualizer.to_mermaid(&graph, &config);
    assert!(mermaid.contains("graph TD"));
    assert!(mermaid.contains("UserService"));
    assert!(mermaid.contains("UserRepository"));
    assert!(mermaid.contains("    UserService[UserService]:::classNode\n"));
    assert!(mermaid.contains("    UserService --uses--> UserRepository\n"));
}

#[test]
fn test_dot_generation() {
    let visualizer = GraphVisualizer {};
    let config = VisualizationConfig::default();
    let graph = ReferenceGraph {
        nodes: vec![
            node("A", DeclarationKind::Class, "/test/A.java"),
            node("B", DeclarationKind::Interface, "/test/B.java"),
        ],
        edges: vec![edge("A", "B", RelationshipType::Implements)],
    };
    let dot = visualizer.to_dot(&graph, &config);
    assert!(dot.contains("digraph G"));
    assert!(dot.contains("A -> B"));
}

#[test]
fn dot_quotes_ids_and_escapes_labels() {
    let visualizer = GraphVisualizer {};
    let config = VisualizationConfig { direction: Direction::LeftToRight, ..VisualizationConfig::default() };
    let mut n = node("a/b:C", DeclarationKind::Enum, "/x");
    n.label = "say \"hi\"".to_string();
    let graph = ReferenceGraph { nodes: vec![n], edges: vec![] };
    let dot = visualizer.to_dot(&graph, &config);
    assert_eq!(
        dot,
        "digraph G {\n    rankdir=LR;\n    node [fontname=\"Helvetica\"];\n    edge [fontname=\"Helvetica\"];\n    \"a/b:C\" [shape=box, style=filled, fillcolor=lightgreen, label=\"say \\\"hi\\\"\"];\n}\n"
    );
    let svg = visualizer.to_svg(&graph, &config);
    assert!(svg.starts_with("<!-- SVG generated from:\n"));
}

#[test]
fn test_focused_graph() {
    let visualizer = GraphVisualizer {};
    let graph = ReferenceGraph {
        nodes: vec![
            node("A", DeclarationKind::Class, "/test/A.java"),
            node("B", DeclarationKind::Class, "/test/B.java"),
            node("C", DeclarationKind::Class, "/test/C.java"),
        ],
        edges: vec![edge("A", "B", RelationshipType::Uses), edge("B", "C", RelationshipType::Uses)],
    };
    let focused = visualizer.generate_focused_graph(&graph, "A", 1);
    assert_eq!(focused.nodes.len(), 2);
    assert_eq!(focused.edges.len(), 1);
}

#[test]
fn test_summary_generation() {
    let visualizer = GraphVisualizer {};
    let graph = ReferenceGraph {
        nodes: vec![
            node("A", DeclarationKind::Class, "/test/A.java"),
            node("B", DeclarationKind::Interface, "/test/B.java"),
        ],
        edges: vec![edge("A", "B", RelationshipType::Implements)],
    };
    let summary = visualizer.generate_summary(&graph);
    assert_eq!(summary.total_nodes, 2);
    assert_eq!(summary.total_edges, 1);
    assert_eq!(summary.nodes_of_kind(&DeclarationKind::Class), Some(&1));
    assert_eq!(summary.nodes_of_kind(&DeclarationKind::Interface), Some(&1));
    assert_eq!(summary.nodes_of_kind(&DeclarationKind::Enum), None);
    assert_eq!(summary.edges_of_type(&RelationshipType::Implements), Some(&1));
    assert_eq!(summary.isolated_nodes, 0);
}

#[test]
fn dependency_matrix_sorted() {
    let visualizer = GraphVisualizer {};
    let graph = ReferenceGraph {
        nodes: vec![
            node("B", DeclarationKind::Class, "/b"),
            node("A", DeclarationKind::Class, "/a"),
        ],
        edges: vec![edge("A", "B", RelationshipType::Uses)],
    };
    let m = visualizer.generate_dependency_matrix(&graph);
    assert_eq!(m.nodes, vec!["A", "B"]);
    assert_eq!(m.matrix, vec![vec![false, true], vec![false, false]]);
}

#[test]
fn focused_graph_depths() {
    let visualizer = GraphVisualizer {};
    let graph = ReferenceGraph {
        nodes: vec![
            node("A", DeclarationKind::Class, "/a"),
            node("B", DeclarationKind::Class, "/b"),
            node("C", DeclarationKind::Class, "/c"),
            node("D", DeclarationKind::Class, "/d"),
        ],
        edges: vec![edge("A", "B", RelationshipType::Uses), edge("C", "B", RelationshipType::Uses), edge("C", "D", RelationshipType::Uses)],
    };
    assert_eq!(visualizer.generate_focused_graph(&graph, "A", 0).nodes.len(), 1);
    let two = visualizer.generate_focused_graph(&graph, "A", 2);
    let ids: Vec<&str> = two.nodes.iter().map(|n| n.id.as_str()).collect();
    assert_eq!(ids, vec!["A", "B", "C"]);
    assert_eq!(two.edges.len(), 2);
    assert_eq!(visualizer.generate_focused_graph(&graph, "A", usize::MAX).nodes.len(), 4);
}

#[test]
fn components_are_disjoint() {
    let mut builder = GraphBuilder::new();
    builder.add_type_reference("A".to_string(), "B".to_string());
    builder.add_type_reference("C".to_string(), "B".to_string());
    builder.add_type_reference("X".to_string(), "Y".to_string());
    let components = builder.get_components();
    assert_eq!(components.len(), 2);
    assert_eq!(components[0], vec!["A", "B", "C"]);
    assert_eq!(components[1], vec!["X", "Y"]);
}
