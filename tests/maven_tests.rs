use code_insight::maven::{DependencyAnalyzer, MavenDependency, MavenModule};

fn dep(g: &str, a: &str, v: &str) -> MavenDependency {
    MavenDependency { group_id: g.to_string(), artifact_id: a.to_string(), version: v.to_string(), scope: None, optional: false }
}

#[test]
fn test_dependency_analysis() {
    let analyzer = DependencyAnalyzer {};
    let modules = vec![
        MavenModule {
            group_id: "com.example".to_string(),
            artifact_id: "app".to_string(),
            version: "1.0.0".to_string(),
            packaging: None,
            path: "/app".to_string(),
            dependencies: vec![dep("org.lib", "core", "2.0.0")],
            submodules: vec![],
        },
        MavenModule {
            group_id: "org.lib".to_string(),
            artifact_id: "core".to_string(),
            version: "2.0.0".to_string(),
            packaging: None,
            path: "/lib".to_string(),
            dependencies: vec![],
            submodules: vec![],
        },
    ];
    let graph = analyzer.analyze_dependencies(&modules);
    assert_eq!(graph.nodes.len(), 2);
    assert_eq!(graph.edges.len(), 1);
    assert_eq!(graph.edges[0].0, "com.example:app:1.0.0");
    assert_eq!(graph.edges[0].1, "org.lib:core:2.0.0");
    assert_eq!(graph.get_dependencies("com.example:app:1.0.0"), vec!["org.lib:core:2.0.0"]);
    assert_eq!(graph.get_dependents("org.lib:core:2.0.0"), vec!["com.example:app:1.0.0"]);
    assert_eq!(graph.to_mermaid(), "graph TD\n    com.example:app:1.0.0 --> org.lib:core:2.0.0\n");
}

#[test]
fn test_dependency_tree() {
    let analyzer = DependencyAnalyzer {};
    let modules = vec![MavenModule {
        group_id: "com.example".to_string(),
        artifact_id: "app".to_string(),
        version: "1.0.0".to_string(),
        packaging: None,
        path: "/app".to_string(),
        dependencies: vec![dep("org.lib", "core", "2.0.0"), dep("org.lib", "utils", "1.5.0")],
        submodules: vec![],
    }];
    let tree = analyzer.resolve_dependency_tree(&modules);
    assert_eq!(tree.len(), 1);
    let deps = tree.get("com.example:app:1.0.0").unwrap();
    assert_eq!(deps.len(), 2);
}
