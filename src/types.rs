//! The declaration model: what one Java source file is made of.

use vstd::prelude::*;

verus! {

/// What kind of type a declaration introduces.
#[derive(Clone, Copy, Debug, PartialEq, Eq, Hash, Structural)]
pub enum DeclarationKind {
    Class,
    Interface,
    Enum,
    Record,
    Annotation,
}

/// A span of source text: 1-based lines and columns, both ends inclusive
/// of the first and last character's position.
#[derive(Clone, Copy, Debug, PartialEq, Eq, Structural)]
pub struct SourceRange {
    pub start_line: usize,
    pub start_column: usize,
    pub end_line: usize,
    pub end_column: usize,
}

/// An annotation such as `@Service` or `@Size(min = 1, max = 5)`.
/// Bare values are stored under the key `value`; each element of an array
/// value is a pair of its own.
#[derive(Clone, Debug)]
pub struct Annotation {
    pub name: String,
    pub values: Vec<(String, String)>,
}

/// A method or constructor parameter.
#[derive(Clone, Debug)]
pub struct Parameter {
    pub name: String,
    pub declared_type: String,
    pub annotations: Vec<Annotation>,
}

/// One declared variable of a field declaration.
#[derive(Clone, Debug)]
pub struct Field {
    pub name: String,
    pub declared_type: String,
    pub modifiers: Vec<String>,
    pub annotations: Vec<Annotation>,
    pub documentation: Option<String>,
}

/// A method or constructor; a constructor's return type is `void`.
#[derive(Clone, Debug)]
pub struct Method {
    pub name: String,
    pub return_type: String,
    pub parameters: Vec<Parameter>,
    pub modifiers: Vec<String>,
    pub annotations: Vec<Annotation>,
    pub type_parameters: Vec<String>,
    pub throws: Vec<String>,
    pub range: SourceRange,
    pub body_range: Option<SourceRange>,
    pub documentation: Option<String>,
}

/// A class, interface, enum, record or annotation type, with the types
/// declared in its body.
#[derive(Debug)]
pub struct Declaration {
    pub name: String,
    pub fqn: String,
    pub kind: DeclarationKind,
    pub modifiers: Vec<String>,
    pub annotations: Vec<Annotation>,
    pub signature: String,
    pub extends: Option<String>,
    pub implements: Vec<String>,
    pub type_parameters: Vec<String>,
    pub fields: Vec<Field>,
    pub methods: Vec<Method>,
    pub nested: Vec<Declaration>,
    pub range: SourceRange,
    pub documentation: Option<String>,
}

/// One parsed source file. An empty package is the default package.
#[derive(Debug)]
pub struct JavaFile {
    pub path: String,
    pub module: Option<String>,
    pub package: String,
    pub imports: Vec<String>,
    pub declarations: Vec<Declaration>,
    pub source_hash: String,
}

// ---- mathematical views ----

pub open spec fn strs_view(v: Seq<String>) -> Seq<Seq<char>> {
    v.map_values(|s: String| s@)
}

pub open spec fn opt_view(o: Option<String>) -> Option<Seq<char>> {
    match o {
        Some(s) => Some(s@),
        None => None,
    }
}

pub open spec fn pairs_view(v: Seq<(String, String)>) -> Seq<(Seq<char>, Seq<char>)> {
    v.map_values(|p: (String, String)| (p.0@, p.1@))
}

pub struct AnnotationView {
    pub name: Seq<char>,
    pub values: Seq<(Seq<char>, Seq<char>)>,
}

impl View for Annotation {
    type V = AnnotationView;

    open spec fn view(&self) -> AnnotationView {
        AnnotationView { name: self.name@, values: pairs_view(self.values@) }
    }
}

pub open spec fn annots_view(v: Seq<Annotation>) -> Seq<AnnotationView> {
    v.map_values(|a: Annotation| a@)
}

pub struct ParameterView {
    pub name: Seq<char>,
    pub declared_type: Seq<char>,
    pub annotations: Seq<AnnotationView>,
}

impl View for Parameter {
    type V = ParameterView;

    open spec fn view(&self) -> ParameterView {
        ParameterView {
            name: self.name@,
            declared_type: self.declared_type@,
            annotations: annots_view(self.annotations@),
        }
    }
}

pub open spec fn params_view(v: Seq<Parameter>) -> Seq<ParameterView> {
    v.map_values(|p: Parameter| p@)
}

pub struct FieldView {
    pub name: Seq<char>,
    pub declared_type: Seq<char>,
    pub modifiers: Seq<Seq<char>>,
    pub annotations: Seq<AnnotationView>,
    pub documentation: Option<Seq<char>>,
}

impl View for Field {
    type V = FieldView;

    open spec fn view(&self) -> FieldView {
        FieldView {
            name: self.name@,
            declared_type: self.declared_type@,
            modifiers: strs_view(self.modifiers@),
            annotations: annots_view(self.annotations@),
            documentation: opt_view(self.documentation),
        }
    }
}

pub open spec fn fields_view(v: Seq<Field>) -> Seq<FieldView> {
    v.map_values(|f: Field| f@)
}

pub struct MethodView {
    pub name: Seq<char>,
    pub return_type: Seq<char>,
    pub parameters: Seq<ParameterView>,
    pub modifiers: Seq<Seq<char>>,
    pub annotations: Seq<AnnotationView>,
    pub type_parameters: Seq<Seq<char>>,
    pub throws: Seq<Seq<char>>,
    pub range: SourceRange,
    pub body_range: Option<SourceRange>,
    pub documentation: Option<Seq<char>>,
}

impl View for Method {
    type V = MethodView;

    open spec fn view(&self) -> MethodView {
        MethodView {
            name: self.name@,
            return_type: self.return_type@,
            parameters: params_view(self.parameters@),
            modifiers: strs_view(self.modifiers@),
            annotations: annots_view(self.annotations@),
            type_parameters: strs_view(self.type_parameters@),
            throws: strs_view(self.throws@),
            range: self.range,
            body_range: self.body_range,
            documentation: opt_view(self.documentation),
        }
    }
}

pub open spec fn methods_view(v: Seq<Method>) -> Seq<MethodView> {
    v.map_values(|m: Method| m@)
}

/// A declaration's own parts, without the declarations nested in it.
pub struct DeclarationView {
    pub name: Seq<char>,
    pub fqn: Seq<char>,
    pub kind: DeclarationKind,
    pub modifiers: Seq<Seq<char>>,
    pub annotations: Seq<AnnotationView>,
    pub signature: Seq<char>,
    pub extends: Option<Seq<char>>,
    pub implements: Seq<Seq<char>>,
    pub type_parameters: Seq<Seq<char>>,
    pub fields: Seq<FieldView>,
    pub methods: Seq<MethodView>,
    pub range: SourceRange,
    pub documentation: Option<Seq<char>>,
}

impl View for Declaration {
    type V = DeclarationView;

    open spec fn view(&self) -> DeclarationView {
        DeclarationView {
            name: self.name@,
            fqn: self.fqn@,
            kind: self.kind,
            modifiers: strs_view(self.modifiers@),
            annotations: annots_view(self.annotations@),
            signature: self.signature@,
            extends: opt_view(self.extends),
            implements: strs_view(self.implements@),
            type_parameters: strs_view(self.type_parameters@),
            fields: fields_view(self.fields@),
            methods: methods_view(self.methods@),
            range: self.range,
            documentation: opt_view(self.documentation),
        }
    }
}

} // verus!
