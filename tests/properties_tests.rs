use code_insight::files::FileSuffix;
use code_insight::properties::{PropertiesFileParser, PropertiesParser, PropertiesSourceFile};

#[test]
fn test_parse_properties_source_file() {
    let parser = PropertiesParser::new();
    let props_content = r#"
            # Database configuration
            database.url=jdbc:mysql://localhost:3306/mydb
            database.username=admin
            database.password=secret
            
            # Application settings
            app.name=My Application
            app.version=1.0.0
        "#;
    let props_file = parser.inner.parse_source("/tmp/conf/application.properties", props_content);
    assert_eq!(props_file.file_meta.name, "application.properties");
    assert_eq!(props_file.file_meta.suffix, FileSuffix::Property);
    assert_eq!(props_file.properties.len(), 5);
    assert!(props_file.properties.contains(&("database.url".to_string(), "jdbc:mysql://localhost:3306/mydb".to_string())));
    assert!(props_file.properties.contains(&("app.name".to_string(), "My Application".to_string())));
    assert_eq!(props_file.comments.len(), 2);
    assert_eq!(props_file.properties_map.get("database.username").unwrap(), "admin");
}

#[test]
fn test_parse_properties_content() {
    let parser = PropertiesFileParser::new();
    let content = r#"
            key1=value1
            key2=value2
            key3=value with spaces
        "#;
    let (properties, comments) = parser.parse_content_with_comments(content);
    assert_eq!(properties.len(), 3);
    assert_eq!(properties[0], ("key1".to_string(), "value1".to_string()));
    assert_eq!(properties[1], ("key2".to_string(), "value2".to_string()));
    assert_eq!(properties[2], ("key3".to_string(), "value with spaces".to_string()));
    assert_eq!(comments.len(), 0);
}

#[test]
fn test_unescape_properties() {
    let parser = PropertiesFileParser::new();
    assert_eq!(parser.unescape_properties("line\\nbreak"), "line\nbreak");
    assert_eq!(parser.unescape_properties("tab\\there"), "tab\there");
    assert_eq!(parser.unescape_properties("backslash\\\\here"), "backslash\\here");
}

#[test]
fn unescape_edge_cases() {
    let parser = PropertiesFileParser::new();
    assert_eq!(parser.unescape_properties("a\\rb"), "a\rb");
    assert_eq!(parser.unescape_properties("a\\:b"), "a:b");
    assert_eq!(parser.unescape_properties("end\\"), "end");
    assert_eq!(parser.unescape_properties(""), "");
}

#[test]
fn test_get_property() {
    let parser = PropertiesFileParser::new();
    let content = r#"
            app.name=MyApp
            app.version=1.0.0
        "#;
    assert_eq!(parser.get_property(content, "app.name"), Some("MyApp".to_string()));
    assert_eq!(parser.get_property(content, "nonexistent"), None);
}

#[test]
fn split_at_first_equals_and_trim() {
    let parser = PropertiesFileParser::new();
    let props = parser.parse_content("  a = b = c  \nno separator here\n\r\n");
    assert_eq!(props, vec![("a".to_string(), "b = c".to_string())]);
    let map = parser.parse_to_map("k=1\nk=2\nj=3");
    assert_eq!(map.len(), 2);
    assert_eq!(map.get("k").unwrap(), "2");
}

#[test]
fn test_merge_properties() {
    let parser = PropertiesFileParser::new();
    let mut file1: PropertiesSourceFile = parser.parse_source("file1.properties", "");
    file1.properties = vec![
        ("key1".to_string(), "value1".to_string()),
        ("key2".to_string(), "value2".to_string()),
    ];
    let mut file2: PropertiesSourceFile = parser.parse_source("file2.properties", "");
    file2.properties = vec![
        ("key2".to_string(), "new_value2".to_string()),
        ("key3".to_string(), "value3".to_string()),
    ];
    let merged = parser.merge_properties(&[file1, file2]);
    assert_eq!(merged.len(), 3);
    assert_eq!(merged.get("key1").unwrap(), "value1");
    assert_eq!(merged.get("key2").unwrap(), "new_value2");
    assert_eq!(merged.get("key3").unwrap(), "value3");
}

#[test]
fn test_comments_extraction() {
    let parser = PropertiesFileParser::new();
    let content = r#"
            # This is a comment
            key1=value1
            ! Another comment
            key2=value2
            # Final comment
        "#;
    let (properties, comments) = parser.parse_content_with_comments(content);
    assert_eq!(properties.len(), 2);
    assert_eq!(comments.len(), 3);
    assert!(comments.contains(&"# This is a comment".to_string()));
    assert!(comments.contains(&"! Another comment".to_string()));
    assert!(comments.contains(&"# Final comment".to_string()));
}
