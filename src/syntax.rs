//! The grammar tree of a Java file, held as plain values: each node's kind
//! is classified once into a closed set, and each node keeps its text and
//! its 1-based source range.

use vstd::prelude::*;
use crate::text::{chars_of, seq_eq};
use crate::types::SourceRange;

verus! {

/// The node kinds that the extractor tells apart; every other kind is `Unknown`.
#[derive(Clone, Copy, Debug, PartialEq, Eq, Structural)]
pub enum JavaNodeKind {
    ModuleDeclaration,
    PackageDeclaration,
    ImportDeclaration,
    ClassDeclaration,
    InterfaceDeclaration,
    EnumDeclaration,
    RecordDeclaration,
    AnnotationTypeDeclaration,
    FieldDeclaration,
    MethodDeclaration,
    ConstructorDeclaration,
    Modifiers,
    Annotation,
    MarkerAnnotation,
    Identifier,
    ScopedIdentifier,
    Asterisk,
    TypeIdentifier,
    ScopedTypeIdentifier,
    IntegralType,
    FloatingPointType,
    BooleanType,
    VoidType,
    GenericType,
    ArrayType,
    FormalParameters,
    FormalParameter,
    SpreadParameter,
    VariableDeclarator,
    Superclass,
    SuperInterfaces,
    ExtendsInterfaces,
    TypeList,
    TypeParameters,
    TypeParameter,
    Throws,
    StringLiteral,
    NumberLiteral,
    True,
    False,
    NullLiteral,
    LineComment,
    BlockComment,
    ElementValuePair,
    ElementValueArrayInitializer,
    Public,
    Private,
    Protected,
    Static,
    Final,
    Abstract,
    Synchronized,
    Volatile,
    Transient,
    Native,
    Strictfp,
    Default,
    Sealed,
    NonSealed,
    Punctuation,
    Unknown,
}

/// The classification of a grammar node kind.
pub open spec fn node_kind_of(s: Seq<char>) -> JavaNodeKind {
    if s == "module_declaration"@ {
        JavaNodeKind::ModuleDeclaration
    } else if s == "package_declaration"@ {
        JavaNodeKind::PackageDeclaration
    } else if s == "import_declaration"@ {
        JavaNodeKind::ImportDeclaration
    } else if s == "class_declaration"@ {
        JavaNodeKind::ClassDeclaration
    } else if s == "interface_declaration"@ {
        JavaNodeKind::InterfaceDeclaration
    } else if s == "enum_declaration"@ {
        JavaNodeKind::EnumDeclaration
    } else if s == "record_declaration"@ {
        JavaNodeKind::RecordDeclaration
    } else if s == "annotation_type_declaration"@ {
        JavaNodeKind::AnnotationTypeDeclaration
    } else if s == "field_declaration"@ {
        JavaNodeKind::FieldDeclaration
    } else if s == "method_declaration"@ {
        JavaNodeKind::MethodDeclaration
    } else if s == "constructor_declaration"@ {
        JavaNodeKind::ConstructorDeclaration
    } else if s == "modifiers"@ {
        JavaNodeKind::Modifiers
    } else if s == "annotation"@ {
        JavaNodeKind::Annotation
    } else if s == "marker_annotation"@ {
        JavaNodeKind::MarkerAnnotation
    } else if s == "identifier"@ {
        JavaNodeKind::Identifier
    } else if s == "scoped_identifier"@ {
        JavaNodeKind::ScopedIdentifier
    } else if s == "asterisk"@ {
        JavaNodeKind::Asterisk
    } else if s == "type_identifier"@ {
        JavaNodeKind::TypeIdentifier
    } else if s == "scoped_type_identifier"@ {
        JavaNodeKind::ScopedTypeIdentifier
    } else if s == "integral_type"@ {
        JavaNodeKind::IntegralType
    } else if s == "floating_point_type"@ {
        JavaNodeKind::FloatingPointType
    } else if s == "boolean_type"@ {
        JavaNodeKind::BooleanType
    } else if s == "void_type"@ {
        JavaNodeKind::VoidType
    } else if s == "generic_type"@ {
        JavaNodeKind::GenericType
    } else if s == "array_type"@ {
        JavaNodeKind::ArrayType
    } else if s == "formal_parameters"@ {
        JavaNodeKind::FormalParameters
    } else if s == "formal_parameter"@ {
        JavaNodeKind::FormalParameter
    } else if s == "spread_parameter"@ {
        JavaNodeKind::SpreadParameter
    } else if s == "variable_declarator"@ {
        JavaNodeKind::VariableDeclarator
    } else if s == "superclass"@ {
        JavaNodeKind::Superclass
    } else if s == "super_interfaces"@ {
        JavaNodeKind::SuperInterfaces
    } else if s == "extends_interfaces"@ {
        JavaNodeKind::ExtendsInterfaces
    } else if s == "type_list"@ {
        JavaNodeKind::TypeList
    } else if s == "type_parameters"@ {
        JavaNodeKind::TypeParameters
    } else if s == "type_parameter"@ {
        JavaNodeKind::TypeParameter
    } else if s == "throws"@ {
        JavaNodeKind::Throws
    } else if s == "string_literal"@ {
        JavaNodeKind::StringLiteral
    } else if s == "decimal_integer_literal"@ || s == "hex_integer_literal"@ || s == "octal_integer_literal"@ || s == "binary_integer_literal"@ || s == "decimal_floating_point_literal"@ || s == "hex_floating_point_literal"@ {
        JavaNodeKind::NumberLiteral
    } else if s == "true"@ {
        JavaNodeKind::True
    } else if s == "false"@ {
        JavaNodeKind::False
    } else if s == "null_literal"@ {
        JavaNodeKind::NullLiteral
    } else if s == "line_comment"@ {
        JavaNodeKind::LineComment
    } else if s == "block_comment"@ {
        JavaNodeKind::BlockComment
    } else if s == "element_value_pair"@ {
        JavaNodeKind::ElementValuePair
    } else if s == "element_value_array_initializer"@ {
        JavaNodeKind::ElementValueArrayInitializer
    } else if s == "public"@ {
        JavaNodeKind::Public
    } else if s == "private"@ {
        JavaNodeKind::Private
    } else if s == "protected"@ {
        JavaNodeKind::Protected
    } else if s == "static"@ {
        JavaNodeKind::Static
    } else if s == "final"@ {
        JavaNodeKind::Final
    } else if s == "abstract"@ {
        JavaNodeKind::Abstract
    } else if s == "synchronized"@ {
        JavaNodeKind::Synchronized
    } else if s == "volatile"@ {
        JavaNodeKind::Volatile
    } else if s == "transient"@ {
        JavaNodeKind::Transient
    } else if s == "native"@ {
        JavaNodeKind::Native
    } else if s == "strictfp"@ {
        JavaNodeKind::Strictfp
    } else if s == "default"@ {
        JavaNodeKind::Default
    } else if s == "sealed"@ {
        JavaNodeKind::Sealed
    } else if s == "non-sealed"@ {
        JavaNodeKind::NonSealed
    } else if s == ","@ || s == "("@ || s == ")"@ || s == "{"@ || s == "}"@ || s == ";"@ || s == "."@ || s == "="@ || s == "@"@ || s == "<"@ || s == ">"@ || s == "["@ || s == "]"@ {
        JavaNodeKind::Punctuation
    } else {
        JavaNodeKind::Unknown
    }
}

/// The role a child plays under its parent, from the grammar's field names.
#[derive(Clone, Copy, Debug, PartialEq, Eq, Structural)]
pub enum FieldRole {
    NoField,
    Name,
    Body,
    Type,
    Superclass,
    Interfaces,
    TypeParameters,
    Parameters,
    Arguments,
    Key,
    Value,
    Declarator,
    Other,
}

/// The role named by a grammar field name.
pub open spec fn field_role_of(s: Seq<char>) -> FieldRole {
    if s == "name"@ {
        FieldRole::Name
    } else if s == "body"@ {
        FieldRole::Body
    } else if s == "type"@ {
        FieldRole::Type
    } else if s == "superclass"@ {
        FieldRole::Superclass
    } else if s == "interfaces"@ {
        FieldRole::Interfaces
    } else if s == "type_parameters"@ {
        FieldRole::TypeParameters
    } else if s == "parameters"@ {
        FieldRole::Parameters
    } else if s == "arguments"@ {
        FieldRole::Arguments
    } else if s == "key"@ {
        FieldRole::Key
    } else if s == "value"@ {
        FieldRole::Value
    } else if s == "declarator"@ {
        FieldRole::Declarator
    } else {
        FieldRole::Other
    }
}

impl JavaNodeKind {
    /// Classifies a grammar node kind.
    pub fn from_str(kind: &str) -> (r: JavaNodeKind)
        ensures
            r == node_kind_of(kind@),
    {
        let k = chars_of(kind);
        if seq_eq(&k, &chars_of("module_declaration")) {
            JavaNodeKind::ModuleDeclaration
        } else if seq_eq(&k, &chars_of("package_declaration")) {
            JavaNodeKind::PackageDeclaration
        } else if seq_eq(&k, &chars_of("import_declaration")) {
            JavaNodeKind::ImportDeclaration
        } else if seq_eq(&k, &chars_of("class_declaration")) {
            JavaNodeKind::ClassDeclaration
        } else if seq_eq(&k, &chars_of("interface_declaration")) {
            JavaNodeKind::InterfaceDeclaration
        } else if seq_eq(&k, &chars_of("enum_declaration")) {
            JavaNodeKind::EnumDeclaration
        } else if seq_eq(&k, &chars_of("record_declaration")) {
            JavaNodeKind::RecordDeclaration
        } else if seq_eq(&k, &chars_of("annotation_type_declaration")) {
            JavaNodeKind::AnnotationTypeDeclaration
        } else if seq_eq(&k, &chars_of("field_declaration")) {
            JavaNodeKind::FieldDeclaration
        } else if seq_eq(&k, &chars_of("method_declaration")) {
            JavaNodeKind::MethodDeclaration
        } else if seq_eq(&k, &chars_of("constructor_declaration")) {
            JavaNodeKind::ConstructorDeclaration
        } else if seq_eq(&k, &chars_of("modifiers")) {
            JavaNodeKind::Modifiers
        } else if seq_eq(&k, &chars_of("annotation")) {
            JavaNodeKind::Annotation
        } else if seq_eq(&k, &chars_of("marker_annotation")) {
            JavaNodeKind::MarkerAnnotation
        } else if seq_eq(&k, &chars_of("identifier")) {
            JavaNodeKind::Identifier
        } else if seq_eq(&k, &chars_of("scoped_identifier")) {
            JavaNodeKind::ScopedIdentifier
        } else if seq_eq(&k, &chars_of("asterisk")) {
            JavaNodeKind::Asterisk
        } else if seq_eq(&k, &chars_of("type_identifier")) {
            JavaNodeKind::TypeIdentifier
        } else if seq_eq(&k, &chars_of("scoped_type_identifier")) {
            JavaNodeKind::ScopedTypeIdentifier
        } else if seq_eq(&k, &chars_of("integral_type")) {
            JavaNodeKind::IntegralType
        } else if seq_eq(&k, &chars_of("floating_point_type")) {
            JavaNodeKind::FloatingPointType
        } else if seq_eq(&k, &chars_of("boolean_type")) {
            JavaNodeKind::BooleanType
        } else if seq_eq(&k, &chars_of("void_type")) {
            JavaNodeKind::VoidType
        } else if seq_eq(&k, &chars_of("generic_type")) {
            JavaNodeKind::GenericType
        } else if seq_eq(&k, &chars_of("array_type")) {
            JavaNodeKind::ArrayType
        } else if seq_eq(&k, &chars_of("formal_parameters")) {
            JavaNodeKind::FormalParameters
        } else if seq_eq(&k, &chars_of("formal_parameter")) {
            JavaNodeKind::FormalParameter
        } else if seq_eq(&k, &chars_of("spread_parameter")) {
            JavaNodeKind::SpreadParameter
        } else if seq_eq(&k, &chars_of("variable_declarator")) {
            JavaNodeKind::VariableDeclarator
        } else if seq_eq(&k, &chars_of("superclass")) {
            JavaNodeKind::Superclass
        } else if seq_eq(&k, &chars_of("super_interfaces")) {
            JavaNodeKind::SuperInterfaces
        } else if seq_eq(&k, &chars_of("extends_interfaces")) {
            JavaNodeKind::ExtendsInterfaces
        } else if seq_eq(&k, &chars_of("type_list")) {
            JavaNodeKind::TypeList
        } else if seq_eq(&k, &chars_of("type_parameters")) {
            JavaNodeKind::TypeParameters
        } else if seq_eq(&k, &chars_of("type_parameter")) {
            JavaNodeKind::TypeParameter
        } else if seq_eq(&k, &chars_of("throws")) {
            JavaNodeKind::Throws
        } else if seq_eq(&k, &chars_of("string_literal")) {
            JavaNodeKind::StringLiteral
        } else if seq_eq(&k, &chars_of("decimal_integer_literal")) || seq_eq(&k, &chars_of("hex_integer_literal")) || seq_eq(&k, &chars_of("octal_integer_literal")) || seq_eq(&k, &chars_of("binary_integer_literal")) || seq_eq(&k, &chars_of("decimal_floating_point_literal")) || seq_eq(&k, &chars_of("hex_floating_point_literal")) {
            JavaNodeKind::NumberLiteral
        } else if seq_eq(&k, &chars_of("true")) {
            JavaNodeKind::True
        } else if seq_eq(&k, &chars_of("false")) {
            JavaNodeKind::False
        } else if seq_eq(&k, &chars_of("null_literal")) {
            JavaNodeKind::NullLiteral
        } else if seq_eq(&k, &chars_of("line_comment")) {
            JavaNodeKind::LineComment
        } else if seq_eq(&k, &chars_of("block_comment")) {
            JavaNodeKind::BlockComment
        } else if seq_eq(&k, &chars_of("element_value_pair")) {
            JavaNodeKind::ElementValuePair
        } else if seq_eq(&k, &chars_of("element_value_array_initializer")) {
            JavaNodeKind::ElementValueArrayInitializer
        } else if seq_eq(&k, &chars_of("public")) {
            JavaNodeKind::Public
        } else if seq_eq(&k, &chars_of("private")) {
            JavaNodeKind::Private
        } else if seq_eq(&k, &chars_of("protected")) {
            JavaNodeKind::Protected
        } else if seq_eq(&k, &chars_of("static")) {
            JavaNodeKind::Static
        } else if seq_eq(&k, &chars_of("final")) {
            JavaNodeKind::Final
        } else if seq_eq(&k, &chars_of("abstract")) {
            JavaNodeKind::Abstract
        } else if seq_eq(&k, &chars_of("synchronized")) {
            JavaNodeKind::Synchronized
        } else if seq_eq(&k, &chars_of("volatile")) {
            JavaNodeKind::Volatile
        } else if seq_eq(&k, &chars_of("transient")) {
            JavaNodeKind::Transient
        } else if seq_eq(&k, &chars_of("native")) {
            JavaNodeKind::Native
        } else if seq_eq(&k, &chars_of("strictfp")) {
            JavaNodeKind::Strictfp
        } else if seq_eq(&k, &chars_of("default")) {
            JavaNodeKind::Default
        } else if seq_eq(&k, &chars_of("sealed")) {
            JavaNodeKind::Sealed
        } else if seq_eq(&k, &chars_of("non-sealed")) {
            JavaNodeKind::NonSealed
        } else if seq_eq(&k, &chars_of(",")) || seq_eq(&k, &chars_of("(")) || seq_eq(&k, &chars_of(")")) || seq_eq(&k, &chars_of("{")) || seq_eq(&k, &chars_of("}")) || seq_eq(&k, &chars_of(";")) || seq_eq(&k, &chars_of(".")) || seq_eq(&k, &chars_of("=")) || seq_eq(&k, &chars_of("@")) || seq_eq(&k, &chars_of("<")) || seq_eq(&k, &chars_of(">")) || seq_eq(&k, &chars_of("[")) || seq_eq(&k, &chars_of("]")) {
            JavaNodeKind::Punctuation
        } else {
            JavaNodeKind::Unknown
        }
    }

    pub open spec fn spec_is_declaration(self) -> bool {
        matches!(self, JavaNodeKind::ClassDeclaration | JavaNodeKind::InterfaceDeclaration
            | JavaNodeKind::EnumDeclaration | JavaNodeKind::RecordDeclaration
            | JavaNodeKind::AnnotationTypeDeclaration)
    }

    /// Whether the node declares a type.
    pub fn is_declaration(self) -> (r: bool)
        ensures
            r == self.spec_is_declaration(),
    {
        matches!(self, JavaNodeKind::ClassDeclaration | JavaNodeKind::InterfaceDeclaration
            | JavaNodeKind::EnumDeclaration | JavaNodeKind::RecordDeclaration
            | JavaNodeKind::AnnotationTypeDeclaration)
    }

    pub open spec fn spec_is_modifier(self) -> bool {
        matches!(self, JavaNodeKind::Public | JavaNodeKind::Private | JavaNodeKind::Protected
            | JavaNodeKind::Static | JavaNodeKind::Final | JavaNodeKind::Abstract
            | JavaNodeKind::Synchronized | JavaNodeKind::Volatile | JavaNodeKind::Transient
            | JavaNodeKind::Native | JavaNodeKind::Strictfp | JavaNodeKind::Default
            | JavaNodeKind::Sealed | JavaNodeKind::NonSealed)
    }

    /// Whether the node is a modifier keyword.
    pub fn is_modifier(self) -> (r: bool)
        ensures
            r == self.spec_is_modifier(),
    {
        matches!(self, JavaNodeKind::Public | JavaNodeKind::Private | JavaNodeKind::Protected
            | JavaNodeKind::Static | JavaNodeKind::Final | JavaNodeKind::Abstract
            | JavaNodeKind::Synchronized | JavaNodeKind::Volatile | JavaNodeKind::Transient
            | JavaNodeKind::Native | JavaNodeKind::Strictfp | JavaNodeKind::Default
            | JavaNodeKind::Sealed | JavaNodeKind::NonSealed)
    }

    pub open spec fn spec_is_type(self) -> bool {
        matches!(self, JavaNodeKind::TypeIdentifier | JavaNodeKind::ScopedTypeIdentifier
            | JavaNodeKind::IntegralType | JavaNodeKind::FloatingPointType
            | JavaNodeKind::BooleanType | JavaNodeKind::VoidType | JavaNodeKind::GenericType
            | JavaNodeKind::ArrayType)
    }

    /// Whether the node names a type.
    pub fn is_type(self) -> (r: bool)
        ensures
            r == self.spec_is_type(),
    {
        matches!(self, JavaNodeKind::TypeIdentifier | JavaNodeKind::ScopedTypeIdentifier
            | JavaNodeKind::IntegralType | JavaNodeKind::FloatingPointType
            | JavaNodeKind::BooleanType | JavaNodeKind::VoidType | JavaNodeKind::GenericType
            | JavaNodeKind::ArrayType)
    }

    pub open spec fn spec_declaration_kind(self) -> Option<crate::types::DeclarationKind> {
        match self {
            JavaNodeKind::ClassDeclaration => Some(crate::types::DeclarationKind::Class),
            JavaNodeKind::InterfaceDeclaration => Some(crate::types::DeclarationKind::Interface),
            JavaNodeKind::EnumDeclaration => Some(crate::types::DeclarationKind::Enum),
            JavaNodeKind::RecordDeclaration => Some(crate::types::DeclarationKind::Record),
            JavaNodeKind::AnnotationTypeDeclaration => Some(crate::types::DeclarationKind::Annotation),
            _ => None,
        }
    }

    /// The kind of type that a declaration node introduces.
    pub fn to_declaration_kind(self) -> (r: Option<crate::types::DeclarationKind>)
        ensures
            r == self.spec_declaration_kind(),
            r is Some <==> self.spec_is_declaration(),
    {
        match self {
            JavaNodeKind::ClassDeclaration => Some(crate::types::DeclarationKind::Class),
            JavaNodeKind::InterfaceDeclaration => Some(crate::types::DeclarationKind::Interface),
            JavaNodeKind::EnumDeclaration => Some(crate::types::DeclarationKind::Enum),
            JavaNodeKind::RecordDeclaration => Some(crate::types::DeclarationKind::Record),
            JavaNodeKind::AnnotationTypeDeclaration => Some(crate::types::DeclarationKind::Annotation),
            _ => None,
        }
    }
}

impl FieldRole {
    /// Classifies a grammar field name; no name gives `NoField`.
    pub fn from_name(name: Option<&str>) -> (r: FieldRole)
        ensures
            name is None ==> r == FieldRole::NoField,
            name is Some ==> r == field_role_of(name->0@),
    {
        match name {
            None => FieldRole::NoField,
            Some(n) => {
                let k = chars_of(n);
                if seq_eq(&k, &chars_of("name")) {
                    FieldRole::Name
                } else if seq_eq(&k, &chars_of("body")) {
                    FieldRole::Body
                } else if seq_eq(&k, &chars_of("type")) {
                    FieldRole::Type
                } else if seq_eq(&k, &chars_of("superclass")) {
                    FieldRole::Superclass
                } else if seq_eq(&k, &chars_of("interfaces")) {
                    FieldRole::Interfaces
                } else if seq_eq(&k, &chars_of("type_parameters")) {
                    FieldRole::TypeParameters
                } else if seq_eq(&k, &chars_of("parameters")) {
                    FieldRole::Parameters
                } else if seq_eq(&k, &chars_of("arguments")) {
                    FieldRole::Arguments
                } else if seq_eq(&k, &chars_of("key")) {
                    FieldRole::Key
                } else if seq_eq(&k, &chars_of("value")) {
                    FieldRole::Value
                } else if seq_eq(&k, &chars_of("declarator")) {
                    FieldRole::Declarator
                } else {
                    FieldRole::Other
                }
            },
        }
    }
}

/// One node of the grammar tree.
#[derive(Debug)]
pub struct SyntaxNode {
    pub kind: JavaNodeKind,
    pub role: FieldRole,
    pub text: String,
    pub range: SourceRange,
    pub children: Vec<SyntaxNode>,
}

/// Grammar trees deeper than this are cut: the deeper nodes are left out.
pub const MAX_TREE_DEPTH: usize = 2000;

#[verifier::external_type_specification]
#[verifier::external_body]
pub struct ExTree(tree_sitter::Tree);

#[verifier::external_type_specification]
#[verifier::external_body]
pub struct ExNode<'a>(tree_sitter::Node<'a>);

/// Relies on tree_sitter::Parser loaded with tree_sitter_java's grammar.
/// `set_language` fails only for a grammar version outside the supported
/// range, and the Java grammar is within it; `parse` gives no tree only
/// without a language, on a timeout or on cancellation, none of which is
/// set here. So a tree always comes back.
#[verifier::external_body]
fn parse_tree(source: &str) -> (r: Option<tree_sitter::Tree>)
    ensures
        r is Some,
{
    let mut parser = tree_sitter::Parser::new();
    parser.set_language(tree_sitter_java::language()).ok()?;
    parser.parse(source, None)
}

/// Relies on tree_sitter::Tree::root_node.
pub assume_specification<'a>[ tree_sitter::Tree::root_node ](t: &'a tree_sitter::Tree) -> tree_sitter::Node<'a>;

/// Relies on tree_sitter::Node::kind: the grammar name of the node's kind.
pub assume_specification<'a>[ tree_sitter::Node::<'a>::kind ](n: &tree_sitter::Node<'a>) -> &'static str;

/// Relies on tree_sitter::Node::child_count: the number of children,
/// which bounds the walk over them.
pub assume_specification<'a>[ tree_sitter::Node::<'a>::child_count ](n: &tree_sitter::Node<'a>) -> usize;

#[verifier::external_type_specification]
#[verifier::external_body]
pub struct ExTreeCursor<'a>(tree_sitter::TreeCursor<'a>);

/// Relies on tree_sitter::Node::walk: a cursor standing on the node.
pub assume_specification<'tree>[ tree_sitter::Node::<'tree>::walk ](n: &tree_sitter::Node<'tree>) -> tree_sitter::TreeCursor<'tree>;

/// Relies on tree_sitter::TreeCursor::goto_first_child: moves to the first
/// child, `false` when there is none.
pub assume_specification<'a>[ tree_sitter::TreeCursor::<'a>::goto_first_child ](c: &mut tree_sitter::TreeCursor<'a>) -> bool;

/// Relies on tree_sitter::TreeCursor::goto_next_sibling: moves to the next
/// sibling, `false` when there is none.
pub assume_specification<'a>[ tree_sitter::TreeCursor::<'a>::goto_next_sibling ](c: &mut tree_sitter::TreeCursor<'a>) -> bool;

/// Relies on tree_sitter::TreeCursor::node: the node the cursor stands on.
pub assume_specification<'a>[ tree_sitter::TreeCursor::<'a>::node ](c: &tree_sitter::TreeCursor<'a>) -> tree_sitter::Node<'a>;

/// Relies on tree_sitter::TreeCursor::field_name: the grammar field under
/// which the current node stands in its parent, if any.
pub assume_specification<'a>[ tree_sitter::TreeCursor::<'a>::field_name ](c: &tree_sitter::TreeCursor<'a>) -> Option<&'static str>;

/// Relies on tree_sitter::Node::start_byte.
pub assume_specification<'a>[ tree_sitter::Node::<'a>::start_byte ](n: &tree_sitter::Node<'a>) -> usize;

/// Relies on tree_sitter::Node::end_byte.
pub assume_specification<'a>[ tree_sitter::Node::<'a>::end_byte ](n: &tree_sitter::Node<'a>) -> usize;

/// Relies on tree_sitter::Node::start_position: a zero-based row and
/// column.
#[verifier::external_body]
fn start_point(n: &tree_sitter::Node) -> (r: (usize, usize)) {
    let p = n.start_position();
    (p.row, p.column)
}

/// Relies on tree_sitter::Node::end_position: a zero-based row and
/// column.
#[verifier::external_body]
fn end_point(n: &tree_sitter::Node) -> (r: (usize, usize)) {
    let p = n.end_position();
    (p.row, p.column)
}

/// Relies on std::str::from_utf8 on `b[start..end]`: `None` where those
/// bytes are not UTF-8.
#[verifier::external_body]
fn utf8_slice(b: &[u8], start: usize, end: usize) -> (r: Option<String>)
    requires
        start <= end <= b@.len(),
{
    std::str::from_utf8(&b[start..end]).ok().map(|s| s.to_string())
}

/// The text of `node` in `bytes`, empty where its span is not valid text.
fn node_text(node: &tree_sitter::Node, bytes: &[u8]) -> String {
    let s = node.start_byte();
    let e = node.end_byte();
    if s <= e && e <= bytes.len() {
        match utf8_slice(bytes, s, e) {
            Some(t) => t,
            None => String::new(),
        }
    } else {
        String::new()
    }
}

/// Lines and columns of at least 1.
pub open spec fn range_one_based(r: SourceRange) -> bool {
    r.start_line >= 1 && r.start_column >= 1 && r.end_line >= 1 && r.end_column >= 1
}

/// Every node of these trees, at every depth, has a 1-based range.
pub open spec fn ranges_one_based(cs: Seq<SyntaxNode>) -> bool
    decreases cs,
{
    if cs.len() == 0 {
        true
    } else {
        &&& ranges_one_based(cs.drop_last())
        &&& range_one_based(cs.last().range)
        &&& ranges_one_based(cs.last().children@)
    }
}

/// Every tree of a list whose nodes all have 1-based ranges has a 1-based
/// root range.
pub proof fn lemma_ranges_each(cs: Seq<SyntaxNode>)
    requires
        ranges_one_based(cs),
    ensures
        forall|i: int| 0 <= i < cs.len() ==> range_one_based(#[trigger] cs[i].range),
    decreases cs.len(),
{
    if cs.len() > 0 {
        lemma_ranges_each(cs.drop_last());
        assert forall|i: int| 0 <= i < cs.len() implies range_one_based(#[trigger] cs[i].range) by {
            if i < cs.len() - 1 {
                assert(cs.drop_last()[i] == cs[i]);
            }
        }
    }
}

/// Copies a grammar node and, up to `depth` levels, its descendants.
fn lower(node: &tree_sitter::Node, role: FieldRole, bytes: &[u8], depth: usize) -> (r: SyntaxNode)
    ensures
        r.role == role,
        range_one_based(r.range),
        ranges_one_based(r.children@),
    decreases depth,
{
    let kind = JavaNodeKind::from_str(node.kind());
    let (sr, sc) = start_point(node);
    let (er, ec) = end_point(node);
    let range = SourceRange {
        start_line: sr.saturating_add(1),
        start_column: sc.saturating_add(1),
        end_line: er.saturating_add(1),
        end_column: ec.saturating_add(1),
    };
    let text = node_text(node, bytes);
    let mut children: Vec<SyntaxNode> = Vec::new();
    assert(ranges_one_based(children@));
    if depth > 0 {
        let n = node.child_count();
        let mut cursor = node.walk();
        if n > 0 && cursor.goto_first_child() {
            let mut i: usize = 0;
            while i < n
                invariant
                    depth > 0,
                    ranges_one_based(children@),
                decreases n - i,
            {
                let c = cursor.node();
                let role = FieldRole::from_name(cursor.field_name());
                let lowered = lower(&c, role, bytes, depth - 1);
                let ghost before = children@;
                children.push(lowered);
                assert(children@.drop_last() =~= before);
                i = i + 1;
                if !cursor.goto_next_sibling() {
                    break;
                }
            }
        }
    }
    SyntaxNode { kind, role, text, range, children }
}

/// Parses Java source text into its grammar tree. The grammar is
/// error-tolerant, so any text gives a tree; every node of it has a 1-based
/// range.
pub fn parse_syntax(source: &str) -> (r: Option<SyntaxNode>)
    ensures
        r is Some,
        r->0.role == FieldRole::NoField,
        range_one_based(r->0.range),
        ranges_one_based(r->0.children@),
{
    match parse_tree(source) {
        Some(tree) => {
            let root = tree.root_node();
            Some(lower(&root, FieldRole::NoField, source.as_bytes(), MAX_TREE_DEPTH))
        },
        None => None,
    }
}

} // verus!
