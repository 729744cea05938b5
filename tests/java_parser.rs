use code_insight::java::{JavaParser, ParseFailure};
use code_insight::types::{DeclarationKind, JavaFile};

fn parse(path: &str, source: &str) -> JavaFile {
    let parser = JavaParser::new();
    match parser.parse_source(path, source) {
        Ok(f) => f,
        Err(ParseFailure::GrammarUnavailable) => panic!("no grammar"),
    }
}

#[test]
fn java_test_parse_simple_class() {
    let java_content = r#"
            package com.example;
            
            import java.util.List;
            
            /**
             * A simple service class
             */
            @Service
            public class UserService {
                private final UserRepository repository;
                
                @Autowired
                public UserService(UserRepository repository) {
                    this.repository = repository;
                }
                
                public List<User> getAllUsers() {
                    return repository.findAll();
                }
            }
        "#;
    let java_file = parse("UserService.java", java_content);
    assert_eq!(java_file.package, "com.example");
    assert_eq!(java_file.imports.len(), 1);
    assert_eq!(java_file.imports[0], "java.util.List");
    assert_eq!(java_file.declarations.len(), 1);
    let declaration = &java_file.declarations[0];
    assert_eq!(declaration.name, "UserService");
    assert!(matches!(declaration.kind, DeclarationKind::Class));
    let expected_signature = "public class com.example.UserService";
    assert_eq!(declaration.signature, expected_signature);
}

#[test]
fn test_parse_interface() {
    let java_content = r#"
            package com.example.api;
            
            public interface UserRepository {
                List<User> findAll();
                User findById(Long id);
                void save(User user);
            }
        "#;
    let java_file = parse("UserRepository.java", java_content);
    assert_eq!(java_file.declarations.len(), 1);
    let declaration = &java_file.declarations[0];
    assert_eq!(declaration.name, "UserRepository");
    assert!(matches!(declaration.kind, DeclarationKind::Interface));
    assert_eq!(declaration.methods.len(), 3);
    let expected_signature = "public interface com.example.api.UserRepository";
    assert_eq!(declaration.signature, expected_signature);
}

#[test]
fn test_fqn_signatures() {
    let java_with_package = r#"
            package com.test.nested;
            
            public class TestClass {
                private int value;
            }
        "#;
    let java_file = parse("TestClass.java", java_with_package);
    assert_eq!(java_file.declarations.len(), 1);
    assert_eq!(java_file.declarations[0].signature, "public class com.test.nested.TestClass");

    let java_without_package = r#"
            public class DefaultPackageClass {
                private String name;
            }
        "#;
    let java_file2 = parse("DefaultPackageClass.java", java_without_package);
    assert_eq!(java_file2.declarations.len(), 1);
    assert_eq!(java_file2.declarations[0].signature, "public class DefaultPackageClass");
}

#[test]
fn java_structure_test_parse_simple_class() {
    let java_content = r#"package com.example;
            /** this is a comment */
            @Service("service")
            public class UserService extends AbsService implements IUser {
                @Component
                private String name;

                @Override
                public void doSomething(@NotNull String userId) throws RuntimeException; {}
        }"#;
    let structure = parse("UserService.java", java_content);
    assert!(!structure.declarations.is_empty(), "Should have at least one class");
    let class = &structure.declarations[0];
    assert_eq!(class.name, "UserService");
    assert_eq!(structure.package, "com.example".to_string());
    assert_eq!(class.annotations.len(), 1);
    assert_eq!(class.annotations[0].name, "Service");
    assert_eq!(class.modifiers, vec!["public"]);
    assert_eq!(class.fields.len(), 1);
    let field = &class.fields[0];
    assert_eq!(field.annotations.len(), 1);
    assert_eq!(field.annotations[0].name, "Component");
    assert_eq!(field.modifiers, vec!["private"]);
    assert_eq!(class.methods.len(), 1);
    let method = &class.methods[0];
    assert_eq!(method.annotations.len(), 1);
    assert_eq!(method.annotations[0].name, "Override");
    assert_eq!(method.modifiers, vec!["public"]);
    assert_eq!(method.parameters.len(), 1);
    assert_eq!(method.throws.len(), 1);
}

#[test]
fn test_parse_nested_classes() {
    let java_content = r#"
            package com.example;
            
            public class OuterClass {
                private String field;
                
                public class InnerClass {
                    private int innerField;
                    
                    public void innerMethod() {}
                }
                
                public static class StaticNested {
                    public void nestedMethod() {}
                }
            }
        "#;
    let structure = parse("OuterClass.java", java_content);
    assert_eq!(structure.declarations.len(), 1);
    let outer = &structure.declarations[0];
    assert_eq!(outer.name, "OuterClass");
    assert_eq!(outer.nested.len(), 2);
    let inner = &outer.nested[0];
    assert_eq!(inner.name, "InnerClass");
    let nested = &outer.nested[1];
    assert_eq!(nested.name, "StaticNested");
    // nested types keep the file's package
    assert_eq!(inner.fqn, "com.example.InnerClass");
    assert_eq!(nested.signature, "public static class com.example.StaticNested");
}

#[test]
fn test_all_bug_fixes() {
    let java_content = r#"
            package com.example.test;
            
            @Controller("mainController")
            @RequestMapping(path = "/api/v1", method = "GET")
            public class UserController extends BaseController implements Serializable, Cloneable {
                @Autowired(required = true)
                private UserService userService;
                
                @GetMapping("/users/{id}")
                public User getUser(@PathVariable Long id) throws UserNotFoundException, IllegalArgumentException {
                    return userService.findById(id);
                }
                
                @Override
                public String toString() {
                    return "UserController";
                }
            }
        "#;
    let structure = parse("UserController.java", java_content);
    assert_eq!(structure.package, "com.example.test".to_string());
    let class = &structure.declarations[0];
    assert_eq!(class.fqn, "com.example.test.UserController");
    assert_eq!(class.extends, Some("BaseController".to_string()));
    assert!(class.implements.len() >= 1, "Should have implements");
    assert!(class.annotations.iter().any(|a| a.name == "Controller"));
    let get_user_method = class.methods.iter().find(|m| m.name == "getUser");
    assert!(get_user_method.is_some(), "getUser method should exist");
}

#[test]
fn concrete_class_in_package() {
    let f = parse("Foo.java", "package com.example; public class Foo {}");
    assert_eq!(f.package, "com.example");
    assert_eq!(f.declarations.len(), 1);
    let d = &f.declarations[0];
    assert_eq!(d.name, "Foo");
    assert_eq!(d.kind, DeclarationKind::Class);
    assert_eq!(d.signature, "public class com.example.Foo");
    assert_eq!(d.extends, None);
    assert!(d.implements.is_empty());
}

#[test]
fn concrete_interface_without_package() {
    let f = parse("Bar.java", "public interface Bar { void m(); }");
    let d = &f.declarations[0];
    assert_eq!(d.signature, "public interface Bar");
    assert_eq!(d.methods.len(), 1);
    assert_eq!(d.methods[0].name, "m");
    assert_eq!(d.methods[0].return_type, "void");
    assert_eq!(d.methods[0].parameters.len(), 0);
}

#[test]
fn empty_source_gives_empty_unit() {
    let f = parse("Empty.java", "");
    assert_eq!(f.package, "");
    assert!(f.imports.is_empty());
    assert!(f.declarations.is_empty());
    assert_eq!(f.source_hash, "d41d8cd98f00b204e9800998ecf8427e");
}

#[test]
fn comments_only_source() {
    let f = parse("Notes.java", "// a note\n/** doc with nothing after it */\n/* more */\n");
    assert!(f.declarations.is_empty());
    assert_eq!(f.package, "");
}

#[test]
fn annotation_values_and_docs() {
    let src = r#"package p;
/** The service. */
@RequestMapping(path = "/api", method = {GET, POST})
@Value("x")
public class S<T> {
    /** count */
    @Size(min = 1, max = 5)
    private int count;
    // plain comment
    public <U> void run(int a, String b) throws IOException, Exception {}
}
"#;
    let f = parse("S.java", src);
    let d = &f.declarations[0];
    assert_eq!(d.documentation.as_deref(), Some("/** The service. */"));
    assert_eq!(d.annotations.len(), 2);
    assert_eq!(d.annotations[0].name, "RequestMapping");
    assert_eq!(
        d.annotations[0].values,
        vec![
            ("path".to_string(), "\"/api\"".to_string()),
            ("method".to_string(), "GET".to_string()),
            ("method".to_string(), "POST".to_string()),
        ]
    );
    assert_eq!(d.annotations[1].values, vec![("value".to_string(), "\"x\"".to_string())]);
    assert_eq!(d.type_parameters, vec!["T"]);
    assert_eq!(d.fields[0].documentation.as_deref(), Some("/** count */"));
    assert_eq!(d.fields[0].declared_type, "int");
    assert_eq!(d.fields[0].annotations[0].values.len(), 2);
    let m = &d.methods[0];
    assert_eq!(m.documentation, None);
    assert_eq!(m.type_parameters, vec!["U"]);
    assert_eq!(m.throws, vec!["IOException", "Exception"]);
    assert_eq!(m.parameters[1].declared_type, "String");
    assert!(m.body_range.is_some());
    assert_eq!(d.range.start_line, 3);
}

#[test]
fn varargs_generics_and_interface_extends() {
    let src = r#"package q;
public interface Repo<T> extends Base<T>, Closeable {
    java.util.List<java.util.Map<String, T>> find(String... keys);
    @Deprecated
    enum Mode { A, B }
}
"#;
    let f = parse("Repo.java", src);
    let d = &f.declarations[0];
    assert_eq!(d.kind, DeclarationKind::Interface);
    assert_eq!(d.implements, vec!["Base<T>", "Closeable"]);
    assert_eq!(d.extends, None);
    let m = &d.methods[0];
    assert_eq!(m.return_type, "java.util.List<java.util.Map<String, T>>");
    assert_eq!(m.parameters.len(), 1);
    assert_eq!(m.parameters[0].name, "keys");
    assert_eq!(m.parameters[0].declared_type, "String...");
    assert_eq!(d.nested.len(), 1);
    assert_eq!(d.nested[0].kind, DeclarationKind::Enum);
    assert_eq!(d.nested[0].signature, "enum q.Mode");
    assert_eq!(d.nested[0].annotations[0].name, "Deprecated");
}

#[test]
fn garbled_source_does_not_fail() {
    let f = parse("Invalid.java", "invalid java syntax {");
    assert_eq!(f.package, "");
    let g = parse("Half.java", "package a.b; public class C { void m( { } ");
    assert_eq!(g.package, "a.b");
}
