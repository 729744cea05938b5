use code_insight::llm::{create_export, format_markdown, source_excerpt, ExportFormat, LlmExport, LlmRequest};
use code_insight::search::{SearchFilter, SearchKind};
use code_insight::types::{Declaration, DeclarationKind, SourceRange};

#[test]
fn test_format_markdown() {
    let exports = vec![LlmExport {
        name: "TestClass".to_string(),
        kind: "class".to_string(),
        signature: "public class TestClass".to_string(),
        documentation: Some("Test documentation".to_string()),
        code: "public class TestClass {}".to_string(),
        file_path: "TestClass.java".to_string(),
        line_range: (1, 10),
    }];
    let markdown = format_markdown(&exports, 1, &"2024-01-01 00:00:00 UTC".to_string(), &"/test".to_string());
    assert!(markdown.contains("# Code Export"));
    assert!(markdown.contains("TestClass"));
    assert!(markdown.contains("Test documentation"));
    assert!(markdown.starts_with("# Code Export\n\n**Total declarations:** 1\n\n**Exported at:** 2024-01-01 00:00:00 UTC\n\n**Project root:** /test\n\n## TestClass\n\n"));
    assert!(markdown.contains("**File:** TestClass.java (lines 1-10)\n\n"));
    assert!(markdown.ends_with("**Code:**\n```java\npublic class TestClass {}\n```\n\n---\n\n"));
}

#[test]
fn excerpt_is_cut_at_the_end() {
    let text = "line one\r\nline two\nline three\n";
    let r = |a, b| SourceRange { start_line: a, start_column: 1, end_line: b, end_column: 1 };
    assert_eq!(source_excerpt(text, &r(2, 3)), "line two\nline three");
    assert_eq!(source_excerpt(text, &r(1, 1)), "line one");
    assert_eq!(source_excerpt(text, &r(2, 99)), "line two\nline three");
    assert_eq!(source_excerpt(text, &r(7, 9)), "");
    assert_eq!(source_excerpt("", &r(1, 1)), "");
}

#[test]
fn request_filters_and_query() {
    let req = LlmRequest::service_classes(Some(5));
    let filters = req.build_filters();
    assert_eq!(filters.len(), 3);
    assert!(matches!(filters[0], SearchFilter::Kind(DeclarationKind::Class)));
    assert!(matches!(&filters[1], SearchFilter::Annotation(a) if a == "Service"));
    assert!(matches!(&filters[2], SearchFilter::Annotation(a) if a == "Component"));
    let q = req.to_query();
    assert_eq!(q.kind, SearchKind::Exact);
    assert_eq!(q.query, "");
    assert_eq!(q.limit, Some(5));
    let mut pkg = LlmRequest::interfaces(None);
    pkg.package = Some("com.x".to_string());
    pkg.format = ExportFormat::Markdown;
    assert_eq!(pkg.build_filters().len(), 2);
    assert_eq!(LlmRequest::controllers(None).annotations, vec!["Controller", "RestController"]);
}

#[test]
fn export_record() {
    let d = Declaration {
        name: "A".to_string(),
        fqn: "p.A".to_string(),
        kind: DeclarationKind::Record,
        modifiers: vec![],
        annotations: vec![],
        signature: "record p.A".to_string(),
        extends: None,
        implements: vec![],
        type_parameters: vec![],
        fields: vec![],
        methods: vec![],
        nested: vec![],
        range: SourceRange { start_line: 4, start_column: 1, end_line: 6, end_column: 2 },
        documentation: None,
    };
    let e = create_export(&d, &"p/A.java".to_string(), None);
    assert_eq!(e.kind, "record");
    assert_eq!(e.code, "record p.A");
    assert_eq!(e.line_range, (4, 6));
    let e2 = create_export(&d, &"p/A.java".to_string(), Some("record A() {}".to_string()));
    assert_eq!(e2.code, "record A() {}");
}

#[test]
fn chunk_parts() {
    let e = LlmExport {
        name: "A".to_string(),
        kind: "class".to_string(),
        signature: "class A".to_string(),
        documentation: None,
        code: "class A {}".to_string(),
        file_path: "p/A.java".to_string(),
        line_range: (1, 1),
    };
    assert_eq!(code_insight::llm::chunk_text(&e), "class A\n\nclass A {}");
    assert_eq!(code_insight::llm::chunk_id(&e), "p/A.java: A");
}
