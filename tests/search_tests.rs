use code_insight::index::{build_query, create_document, declaration_from_document, document_to_result, join_words, result_limit, split_words, IndexField, QueryPlan};
use code_insight::java::content_hash;
use code_insight::files::{FileMeta, FileSuffix};
use code_insight::query::{flatten_declarations, QueryEngine};
use code_insight::search::{apply_filters, contains_text, sort_results, SearchFilter, SearchKind, SearchQuery, SearchResult};
use code_insight::types::{Annotation, Declaration, DeclarationKind, SourceRange};

fn decl(name: &str, kind: DeclarationKind, annotations: &[&str]) -> Declaration {
    Declaration {
        name: name.to_string(),
        fqn: format!("com.example.{}", name),
        kind,
        modifiers: vec!["public".to_string(), "final".to_string()],
        annotations: annotations.iter().map(|a| Annotation { name: a.to_string(), values: vec![] }).collect(),
        signature: format!("public final class com.example.{}", name),
        extends: Some("Base".to_string()),
        implements: vec!["Runnable".to_string(), "Serializable".to_string()],
        type_parameters: vec![],
        fields: vec![],
        methods: vec![],
        nested: vec![],
        range: SourceRange { start_line: 3, start_column: 1, end_line: 9, end_column: 2 },
        documentation: Some("/** docs */".to_string()),
    }
}

fn result(name: &str, kind: DeclarationKind, annotations: &[&str], path: &str, score: u32) -> SearchResult {
    SearchResult { declaration: decl(name, kind, annotations), file_path: path.to_string(), score, preview: name.to_string() }
}

#[test]
fn kind_and_annotation_filters_compose() {
    let results = vec![
        result("UserService", DeclarationKind::Class, &["Service"], "/a/UserService.java", 1000),
        result("UserRepo", DeclarationKind::Interface, &["Service"], "/a/UserRepo.java", 1000),
        result("Helper", DeclarationKind::Class, &["Component"], "/a/Helper.java", 1000),
        result("OrderService", DeclarationKind::Class, &["MyServiceBean"], "/b/OrderService.java", 1000),
    ];
    let filters = vec![SearchFilter::Kind(DeclarationKind::Class), SearchFilter::Annotation("Service".to_string())];
    let kept = apply_filters(results, &filters);
    let names: Vec<&str> = kept.iter().map(|r| r.declaration.name.as_str()).collect();
    assert_eq!(names, vec!["UserService", "OrderService"]);
}

#[test]
fn package_filter_matches_path_substring() {
    let results = vec![
        result("A", DeclarationKind::Class, &[], "/src/com/example/A.java", 1),
        result("B", DeclarationKind::Class, &[], "/src/org/other/B.java", 1),
    ];
    let kept = apply_filters(results, &vec![SearchFilter::Package("com/example".to_string())]);
    assert_eq!(kept.len(), 1);
    assert_eq!(kept[0].declaration.name, "A");
    assert!(contains_text("abcdef", "cde"));
    assert!(contains_text("abc", ""));
    assert!(!contains_text("ab", "abc"));
}

#[test]
fn ordering_per_search_kind() {
    let make = || vec![
        result("Zeta", DeclarationKind::Class, &[], "/c.java", 5),
        result("Alpha", DeclarationKind::Class, &[], "/b.java", 9),
        result("Mid", DeclarationKind::Class, &[], "/a.java", 7),
    ];
    let by_name: Vec<String> = sort_results(make(), SearchKind::Exact).iter().map(|r| r.declaration.name.clone()).collect();
    assert_eq!(by_name, vec!["Alpha", "Mid", "Zeta"]);
    let by_score: Vec<u32> = sort_results(make(), SearchKind::Fuzzy).iter().map(|r| r.score).collect();
    assert_eq!(by_score, vec![9, 7, 5]);
    let by_path: Vec<String> = sort_results(make(), SearchKind::Regex).iter().map(|r| r.file_path.clone()).collect();
    assert_eq!(by_path, vec!["/a.java", "/b.java", "/c.java"]);
}

#[test]
fn cache_serves_first_answer_and_refilters() {
    let mut engine = QueryEngine::new();
    let query = SearchQuery::plain("User", SearchKind::Exact, Some(10));
    assert!(engine.lookup(&query).is_none());
    let raw = vec![
        result("UserB", DeclarationKind::Interface, &[], "/x/UserB.java", 1000),
        result("UserA", DeclarationKind::Class, &[], "/x/UserA.java", 1000),
    ];
    let first = engine.complete(&query, raw);
    assert_eq!(first.len(), 2);
    assert_eq!(first[0].declaration.name, "UserA");
    assert_eq!(engine.get_cache_stats(), (1, 2));
    let mut filtered = SearchQuery::plain("User", SearchKind::Exact, Some(1));
    filtered.filters.push(SearchFilter::Kind(DeclarationKind::Interface));
    let hit = engine.lookup(&filtered).unwrap();
    assert_eq!(hit.len(), 1);
    assert_eq!(hit[0].declaration.name, "UserB");
    assert!(engine.lookup(&SearchQuery::plain("User", SearchKind::Fuzzy, None)).is_none());
    engine.clear_cache();
    assert_eq!(engine.get_cache_stats(), (0, 0));
}

#[test]
fn document_round_trip() {
    let d = decl("UserService", DeclarationKind::Interface, &["Service", "Transactional"]);
    let doc = create_document(&d, &"com.example".to_string(), &"/p/UserService.java".to_string(), &"abc123".to_string(), "[]".to_string(), "[]".to_string());
    assert_eq!(doc.kind, "Interface");
    assert_eq!(doc.modifiers, "public final");
    assert_eq!(doc.annotations, "Service Transactional");
    assert_eq!(doc.implements, "Runnable Serializable");
    let back = declaration_from_document(&doc, vec![], vec![]);
    assert_eq!(back.name, d.name);
    assert_eq!(back.kind, d.kind);
    assert_eq!(back.signature, d.signature);
    assert_eq!(back.modifiers, d.modifiers);
    assert_eq!(back.implements, d.implements);
    assert_eq!(back.extends, d.extends);
    assert_eq!(back.documentation, d.documentation);
    assert_eq!(back.range, d.range);
    assert_eq!(back.fqn, "com.example.UserService");
    assert_eq!(back.annotations.len(), 2);
    assert_eq!(back.annotations[1].name, "Transactional");
    let r = document_to_result(&doc, vec![], vec![]);
    assert_eq!(r.preview, "UserService: public final class com.example.UserService");
    assert_eq!(r.score, 1000);
}

#[test]
fn empty_stored_texts_read_as_absent() {
    let mut d = decl("X", DeclarationKind::Class, &[]);
    d.extends = Some(String::new());
    d.implements = vec![];
    let doc = create_document(&d, &String::new(), &"x".to_string(), &"h".to_string(), String::new(), String::new());
    let back = declaration_from_document(&doc, vec![], vec![]);
    assert_eq!(back.extends, None);
    assert!(back.implements.is_empty());
    assert_eq!(back.fqn, "X");
}

#[test]
fn words_split_and_join() {
    assert_eq!(split_words(&"  a \t bb\nc  ".to_string()), vec!["a", "bb", "c"]);
    assert!(split_words(&"   ".to_string()).is_empty());
    assert_eq!(join_words(&vec!["x".to_string(), "y".to_string()]), "x y");
    assert_eq!(join_words(&vec![]), "");
}

#[test]
fn query_plans() {
    match build_query(&SearchQuery::plain("UserServ", SearchKind::Fuzzy, None)) {
        QueryPlan::Fuzzy { field, term, distance, transpositions } => {
            assert_eq!(field, IndexField::Name);
            assert_eq!(term, "userserv");
            assert_eq!(distance, 2);
            assert!(transpositions);
        }
        _ => panic!("fuzzy plan expected"),
    }
    match build_query(&SearchQuery::plain("Foo", SearchKind::Exact, None)) {
        QueryPlan::Parsed { fields, text } => {
            assert_eq!(fields, vec![IndexField::Name, IndexField::Signature, IndexField::Documentation]);
            assert_eq!(text, "Foo");
        }
        _ => panic!("parsed plan expected"),
    }
    assert_eq!(result_limit(&SearchQuery::plain("a", SearchKind::Regex, None)), 100);
    assert_eq!(result_limit(&SearchQuery::plain("a", SearchKind::Regex, Some(7))), 7);
    let q = SearchQuery::for_kind(DeclarationKind::Record, None);
    assert_eq!(q.query, "kind:Record");
}

#[test]
fn flatten_moves_nested_out() {
    let mut outer = decl("Outer", DeclarationKind::Class, &[]);
    let mut inner = decl("Inner", DeclarationKind::Class, &[]);
    inner.nested.push(decl("Deep", DeclarationKind::Enum, &[]));
    outer.nested.push(inner);
    let flat = flatten_declarations(vec![outer, decl("Other", DeclarationKind::Record, &[])]);
    let names: Vec<&str> = flat.iter().map(|d| d.name.as_str()).collect();
    assert_eq!(names, vec!["Outer", "Inner", "Deep", "Other"]);
    assert!(flat.iter().all(|d| d.nested.is_empty()));
    assert!(flatten_declarations(vec![]).is_empty());
}

#[test]
fn hashes_and_file_names() {
    assert_eq!(content_hash("hello"), "5d41402abc4b2a76b9719d911017c592");
    let meta = FileMeta::new("/tmp/dir/App.java", FileSuffix::Java, "hello");
    assert_eq!(meta.name, "App.java");
    assert_eq!(meta.hash_value, "5d41402abc4b2a76b9719d911017c592");
    assert_eq!(FileMeta::new("..", FileSuffix::Xml, "").name, "unknown");
}
