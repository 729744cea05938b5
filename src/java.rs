//! The structural extractor: from a grammar tree to the declaration model.
//!
//! Each part of the model is first stated as a spec function over the tree
//! and then computed by a function proved equal to it.

use vstd::prelude::*;
use crate::syntax::{FieldRole, JavaNodeKind, SyntaxNode};
use crate::types::{
    Declaration, DeclarationKind, DeclarationView, JavaFile,
    annots_view, fields_view, methods_view, opt_view, pairs_view, params_view, strs_view,
    Annotation, AnnotationView, Field, FieldView, Method, MethodView, Parameter, ParameterView,
};
use vstd::string::StringExecFns;

verus! {

broadcast use vstd::string::group_string_axioms;

// ---- locating children ----

/// Index of the first child at or after `i` that stands under `role`.
pub open spec fn find_role(cs: Seq<SyntaxNode>, role: FieldRole, i: int) -> Option<int>
    decreases cs.len() - i,
{
    if i < 0 || i >= cs.len() {
        None
    } else if cs[i].role == role {
        Some(i)
    } else {
        find_role(cs, role, i + 1)
    }
}

/// Index of the first child at or after `i` of kind `kind`.
pub open spec fn find_kind(cs: Seq<SyntaxNode>, kind: JavaNodeKind, i: int) -> Option<int>
    decreases cs.len() - i,
{
    if i < 0 || i >= cs.len() {
        None
    } else if cs[i].kind == kind {
        Some(i)
    } else {
        find_kind(cs, kind, i + 1)
    }
}

/// Index of the first child at or after `i` that is a simple or qualified name.
pub open spec fn find_name(cs: Seq<SyntaxNode>, i: int) -> Option<int>
    decreases cs.len() - i,
{
    if i < 0 || i >= cs.len() {
        None
    } else if cs[i].kind == JavaNodeKind::Identifier || cs[i].kind == JavaNodeKind::ScopedIdentifier {
        Some(i)
    } else {
        find_name(cs, i + 1)
    }
}

proof fn lemma_find_role_bounds(cs: Seq<SyntaxNode>, role: FieldRole, i: int)
    ensures
        find_role(cs, role, i) matches Some(k) ==> 0 <= k < cs.len() && cs[k].role == role,
    decreases cs.len() - i,
{
    if 0 <= i < cs.len() && cs[i].role != role {
        lemma_find_role_bounds(cs, role, i + 1);
    }
}

proof fn lemma_find_kind_bounds(cs: Seq<SyntaxNode>, kind: JavaNodeKind, i: int)
    ensures
        find_kind(cs, kind, i) matches Some(k) ==> 0 <= k < cs.len() && cs[k].kind == kind,
    decreases cs.len() - i,
{
    if 0 <= i < cs.len() && cs[i].kind != kind {
        lemma_find_kind_bounds(cs, kind, i + 1);
    }
}

proof fn lemma_find_name_bounds(cs: Seq<SyntaxNode>, i: int)
    ensures
        find_name(cs, i) matches Some(k) ==> 0 <= k < cs.len(),
    decreases cs.len() - i,
{
    if 0 <= i < cs.len() && !(cs[i].kind == JavaNodeKind::Identifier || cs[i].kind
        == JavaNodeKind::ScopedIdentifier) {
        lemma_find_name_bounds(cs, i + 1);
    }
}

/// The first child under `role`.
pub fn child_with_role(cs: &Vec<SyntaxNode>, role: FieldRole) -> (r: Option<usize>)
    ensures
        r is Some <==> find_role(cs@, role, 0) is Some,
        r matches Some(k) ==> k < cs@.len() && find_role(cs@, role, 0) == Some(k as int),
{
    proof {
        lemma_find_role_bounds(cs@, role, 0);
    }
    let mut i: usize = 0;
    while i < cs.len()
        invariant
            i <= cs@.len(),
            find_role(cs@, role, 0) == find_role(cs@, role, i as int),
        decreases cs@.len() - i,
    {
        if cs[i].role == role {
            return Some(i);
        }
        i = i + 1;
    }
    None
}

/// The first child of kind `kind`.
pub fn child_of_kind(cs: &Vec<SyntaxNode>, kind: JavaNodeKind) -> (r: Option<usize>)
    ensures
        r is Some <==> find_kind(cs@, kind, 0) is Some,
        r matches Some(k) ==> k < cs@.len() && find_kind(cs@, kind, 0) == Some(k as int),
{
    proof {
        lemma_find_kind_bounds(cs@, kind, 0);
    }
    let mut i: usize = 0;
    while i < cs.len()
        invariant
            i <= cs@.len(),
            find_kind(cs@, kind, 0) == find_kind(cs@, kind, i as int),
        decreases cs@.len() - i,
    {
        if cs[i].kind == kind {
            return Some(i);
        }
        i = i + 1;
    }
    None
}

/// The first child that is a simple or qualified name.
pub fn name_child(cs: &Vec<SyntaxNode>) -> (r: Option<usize>)
    ensures
        r is Some <==> find_name(cs@, 0) is Some,
        r matches Some(k) ==> k < cs@.len() && find_name(cs@, 0) == Some(k as int),
{
    proof {
        lemma_find_name_bounds(cs@, 0);
    }
    let mut i: usize = 0;
    while i < cs.len()
        invariant
            i <= cs@.len(),
            find_name(cs@, 0) == find_name(cs@, i as int),
        decreases cs@.len() - i,
    {
        if cs[i].kind == JavaNodeKind::Identifier || cs[i].kind == JavaNodeKind::ScopedIdentifier {
            return Some(i);
        }
        i = i + 1;
    }
    None
}

// ---- package and imports ----

/// The package named by the file's package clause; empty when it has none.
pub open spec fn package_of(root: SyntaxNode) -> Seq<char> {
    match find_kind(root.children@, JavaNodeKind::PackageDeclaration, 0) {
        Some(p) => match find_name(root.children@[p].children@, 0) {
            Some(k) => root.children@[p].children@[k].text@,
            None => Seq::empty(),
        },
        None => Seq::empty(),
    }
}

/// Extracts the package name.
pub fn extract_package(root: &SyntaxNode) -> (r: String)
    ensures
        r@ == package_of(*root),
{
    match child_of_kind(&root.children, JavaNodeKind::PackageDeclaration) {
        Some(p) => {
            let pd = &root.children[p];
            match name_child(&pd.children) {
                Some(k) => pd.children[k].text.clone(),
                None => String::new(),
            }
        },
        None => String::new(),
    }
}

/// What one top-level child adds to the import list.
pub open spec fn import_of(c: SyntaxNode) -> Seq<Seq<char>> {
    if c.kind == JavaNodeKind::ImportDeclaration {
        match find_name(c.children@, 0) {
            Some(k) => seq![c.children@[k].text@],
            None => Seq::empty(),
        }
    } else {
        Seq::empty()
    }
}

/// The imported names of the first `n` children, in order.
pub open spec fn imports_upto(cs: Seq<SyntaxNode>, n: int) -> Seq<Seq<char>>
    decreases n,
{
    if n <= 0 {
        Seq::empty()
    } else {
        imports_upto(cs, n - 1) + import_of(cs[n - 1])
    }
}

/// Extracts the imported names, in source order.
pub fn extract_imports(root: &SyntaxNode) -> (r: Vec<String>)
    ensures
        strs_view(r@) == imports_upto(root.children@, root.children@.len() as int),
{
    let cs = &root.children;
    let mut out: Vec<String> = Vec::new();
    let mut i: usize = 0;
    while i < cs.len()
        invariant
            i <= cs@.len(),
            strs_view(out@) == imports_upto(cs@, i as int),
        decreases cs@.len() - i,
    {
        let c = &cs[i];
        if c.kind == JavaNodeKind::ImportDeclaration {
            match name_child(&c.children) {
                Some(k) => {
                    let t = c.children[k].text.clone();
                    proof {
                        assert(strs_view(out@.push(t)) =~= strs_view(out@) + seq![t@]);
                    }
                    out.push(t);
                },
                None => {
                    assert(import_of(cs@[i as int]) =~= Seq::<Seq<char>>::empty());
                },
            }
        }
        assert(imports_upto(cs@, i + 1) == imports_upto(cs@, i as int) + import_of(cs@[i as int]));
        proof {
            if c.kind != JavaNodeKind::ImportDeclaration {
                assert(imports_upto(cs@, i as int) + Seq::<Seq<char>>::empty() =~= imports_upto(cs@, i as int));
            } else if find_name(c.children@, 0) is None {
                assert(imports_upto(cs@, i as int) + Seq::<Seq<char>>::empty() =~= imports_upto(cs@, i as int));
            }
        }
        i = i + 1;
    }
    out
}


// ---- texts of chosen children ----

/// Which children a list of texts is made of.
#[derive(Clone, Copy, Debug, PartialEq, Eq, Structural)]
pub enum Pick {
    /// modifier keywords
    Modifier,
    /// type parameters
    TypeParam,
    /// type names
    TypeName,
    /// anything but punctuation and comments
    Item,
}

pub open spec fn picks(p: Pick, k: JavaNodeKind) -> bool {
    match p {
        Pick::Modifier => k.spec_is_modifier(),
        Pick::TypeParam => k == JavaNodeKind::TypeParameter,
        Pick::TypeName => k.spec_is_type(),
        Pick::Item => is_item(k),
    }
}

pub open spec fn is_item(k: JavaNodeKind) -> bool {
    k != JavaNodeKind::Punctuation && k != JavaNodeKind::LineComment && k != JavaNodeKind::BlockComment
}

fn pick(p: Pick, k: JavaNodeKind) -> (r: bool)
    ensures
        r == picks(p, k),
{
    match p {
        Pick::Modifier => k.is_modifier(),
        Pick::TypeParam => k == JavaNodeKind::TypeParameter,
        Pick::TypeName => k.is_type(),
        Pick::Item => k != JavaNodeKind::Punctuation && k != JavaNodeKind::LineComment
            && k != JavaNodeKind::BlockComment,
    }
}

/// The texts of the first `n` children that `p` picks, in order.
pub open spec fn texts_upto(cs: Seq<SyntaxNode>, p: Pick, n: int) -> Seq<Seq<char>>
    decreases n,
{
    if n <= 0 {
        Seq::empty()
    } else if picks(p, cs[n - 1].kind) {
        texts_upto(cs, p, n - 1).push(cs[n - 1].text@)
    } else {
        texts_upto(cs, p, n - 1)
    }
}

pub open spec fn texts(cs: Seq<SyntaxNode>, p: Pick) -> Seq<Seq<char>> {
    texts_upto(cs, p, cs.len() as int)
}

/// The texts of the children that `p` picks, in order.
pub fn child_texts(cs: &Vec<SyntaxNode>, p: Pick) -> (r: Vec<String>)
    ensures
        strs_view(r@) == texts(cs@, p),
{
    let mut out: Vec<String> = Vec::new();
    let mut i: usize = 0;
    while i < cs.len()
        invariant
            i <= cs@.len(),
            strs_view(out@) == texts_upto(cs@, p, i as int),
        decreases cs@.len() - i,
    {
        if pick(p, cs[i].kind) {
            let t = cs[i].text.clone();
            proof {
                assert(strs_view(out@.push(t)) =~= strs_view(out@).push(t@));
            }
            out.push(t);
        }
        i = i + 1;
    }
    out
}

/// The modifier keywords of a declaration, from its modifiers node.
pub open spec fn modifiers_of(n: SyntaxNode) -> Seq<Seq<char>> {
    match find_kind(n.children@, JavaNodeKind::Modifiers, 0) {
        Some(i) => texts(n.children@[i].children@, Pick::Modifier),
        None => Seq::empty(),
    }
}

pub fn extract_modifiers(n: &SyntaxNode) -> (r: Vec<String>)
    ensures
        strs_view(r@) == modifiers_of(*n),
{
    match child_of_kind(&n.children, JavaNodeKind::Modifiers) {
        Some(i) => child_texts(&n.children[i].children, Pick::Modifier),
        None => Vec::new(),
    }
}

/// The type parameters of a declaration, as written.
pub open spec fn type_params_of(n: SyntaxNode) -> Seq<Seq<char>> {
    match find_role(n.children@, FieldRole::TypeParameters, 0) {
        Some(i) => texts(n.children@[i].children@, Pick::TypeParam),
        None => Seq::empty(),
    }
}

pub fn extract_type_parameters(n: &SyntaxNode) -> (r: Vec<String>)
    ensures
        strs_view(r@) == type_params_of(*n),
{
    match child_with_role(&n.children, FieldRole::TypeParameters) {
        Some(i) => child_texts(&n.children[i].children, Pick::TypeParam),
        None => Vec::new(),
    }
}

/// The types named in a `throws` clause.
pub open spec fn throws_of(n: SyntaxNode) -> Seq<Seq<char>> {
    match find_kind(n.children@, JavaNodeKind::Throws, 0) {
        Some(i) => texts(n.children@[i].children@, Pick::TypeName),
        None => Seq::empty(),
    }
}

pub fn extract_throws(n: &SyntaxNode) -> (r: Vec<String>)
    ensures
        strs_view(r@) == throws_of(*n),
{
    match child_of_kind(&n.children, JavaNodeKind::Throws) {
        Some(i) => child_texts(&n.children[i].children, Pick::TypeName),
        None => Vec::new(),
    }
}

/// The types listed in a clause node.
pub open spec fn clause_types(c: SyntaxNode) -> Seq<Seq<char>> {
    match find_kind(c.children@, JavaNodeKind::TypeList, 0) {
        Some(j) => texts(c.children@[j].children@, Pick::Item),
        None => Seq::empty(),
    }
}

/// The interfaces of an `implements` clause, or those an interface
/// extends; empty when there is no such clause.
pub open spec fn implements_of(n: SyntaxNode) -> Seq<Seq<char>> {
    match find_role(n.children@, FieldRole::Interfaces, 0) {
        Some(i) => clause_types(n.children@[i]),
        None => match find_kind(n.children@, JavaNodeKind::ExtendsInterfaces, 0) {
            Some(i) => clause_types(n.children@[i]),
            None => Seq::empty(),
        },
    }
}

pub fn extract_implements(n: &SyntaxNode) -> (r: Vec<String>)
    ensures
        strs_view(r@) == implements_of(*n),
{
    let clause = match child_with_role(&n.children, FieldRole::Interfaces) {
        Some(i) => Some(i),
        None => child_of_kind(&n.children, JavaNodeKind::ExtendsInterfaces),
    };
    match clause {
        Some(i) => {
            let si = &n.children[i];
            match child_of_kind(&si.children, JavaNodeKind::TypeList) {
                Some(j) => child_texts(&si.children[j].children, Pick::Item),
                None => Vec::new(),
            }
        },
        None => Vec::new(),
    }
}

/// The superclass: the type that ends an `extends` clause; `None` when
/// there is no such clause.
pub open spec fn extends_of(n: SyntaxNode) -> Option<Seq<char>> {
    match find_role(n.children@, FieldRole::Superclass, 0) {
        Some(i) => if n.children@[i].children@.len() >= 2 {
            Some(n.children@[i].children@.last().text@)
        } else {
            None
        },
        None => None,
    }
}

pub fn extract_extends(n: &SyntaxNode) -> (r: Option<String>)
    ensures
        opt_view(r) == extends_of(*n),
{
    match child_with_role(&n.children, FieldRole::Superclass) {
        Some(i) => {
            let sc = &n.children[i];
            let len = sc.children.len();
            if len >= 2 {
                Some(sc.children[len - 1].text.clone())
            } else {
                None
            }
        },
        None => None,
    }
}

// ---- documentation ----

/// Whether `s` opens a documentation comment.
pub open spec fn is_doc_text(s: Seq<char>) -> bool {
    s.len() >= 3 && s[0] == '/' && s[1] == '*' && s[2] == '*'
}

/// The documentation of the child at `k`: the nearest comment before it
/// that opens with `/**`, looking back over comments only.
pub open spec fn doc_before(cs: Seq<SyntaxNode>, k: int) -> Option<Seq<char>>
    decreases k,
{
    if k <= 0 || k > cs.len() {
        None
    } else if cs[k - 1].kind == JavaNodeKind::LineComment || cs[k - 1].kind == JavaNodeKind::BlockComment {
        if is_doc_text(cs[k - 1].text@) {
            Some(cs[k - 1].text@)
        } else {
            doc_before(cs, k - 1)
        }
    } else {
        None
    }
}

fn starts_doc(s: &String) -> (r: bool)
    ensures
        r == is_doc_text(s@),
{
    let v = crate::text::chars_of(s.as_str());
    v.len() >= 3 && v[0] == '/' && v[1] == '*' && v[2] == '*'
}

/// Finds the documentation comment of the child at `k`.
pub fn documentation_before(cs: &Vec<SyntaxNode>, k: usize) -> (r: Option<String>)
    requires
        k <= cs@.len(),
    ensures
        opt_view(r) == doc_before(cs@, k as int),
{
    let mut j: usize = k;
    while j > 0
        invariant
            j <= k <= cs@.len(),
            doc_before(cs@, k as int) == doc_before(cs@, j as int),
        decreases j,
    {
        let c = &cs[j - 1];
        if c.kind == JavaNodeKind::LineComment || c.kind == JavaNodeKind::BlockComment {
            if starts_doc(&c.text) {
                return Some(c.text.clone());
            }
        } else {
            return None;
        }
        j = j - 1;
    }
    None
}


// ---- annotations ----

/// Pairs keyed by `key`, one for each element of an array value.
pub open spec fn keyed_upto(key: Seq<char>, cs: Seq<SyntaxNode>, n: int) -> Seq<(Seq<char>, Seq<char>)>
    decreases n,
{
    if n <= 0 {
        Seq::empty()
    } else if is_item(cs[n - 1].kind) {
        keyed_upto(key, cs, n - 1).push((key, cs[n - 1].text@))
    } else {
        keyed_upto(key, cs, n - 1)
    }
}

fn keyed_items(key: &String, cs: &Vec<SyntaxNode>) -> (r: Vec<(String, String)>)
    ensures
        pairs_view(r@) == keyed_upto(key@, cs@, cs@.len() as int),
{
    let mut out: Vec<(String, String)> = Vec::new();
    let mut i: usize = 0;
    while i < cs.len()
        invariant
            i <= cs@.len(),
            pairs_view(out@) == keyed_upto(key@, cs@, i as int),
        decreases cs@.len() - i,
    {
        if cs[i].kind != JavaNodeKind::Punctuation && cs[i].kind != JavaNodeKind::LineComment
            && cs[i].kind != JavaNodeKind::BlockComment {
            let p = (key.clone(), cs[i].text.clone());
            proof {
                assert(pairs_view(out@.push(p)) =~= pairs_view(out@).push((p.0@, p.1@)));
            }
            out.push(p);
        }
        i = i + 1;
    }
    out
}

/// The text of the child under the `role` field; empty when there is none.
pub open spec fn role_text(n: SyntaxNode, role: FieldRole) -> Seq<char> {
    match find_role(n.children@, role, 0) {
        Some(i) => n.children@[i].text@,
        None => Seq::empty(),
    }
}

fn text_with_role(n: &SyntaxNode, role: FieldRole) -> (r: String)
    ensures
        r@ == role_text(*n, role),
{
    match child_with_role(&n.children, role) {
        Some(i) => n.children[i].text.clone(),
        None => String::new(),
    }
}

/// What one child of an annotation's argument list adds to its values:
/// `key = value` gives its pair (one per element for an array), an array
/// gives one `value` pair per element, any other bare value one `value`
/// pair, and punctuation nothing.
pub open spec fn argument_values(c: SyntaxNode) -> Seq<(Seq<char>, Seq<char>)> {
    if c.kind == JavaNodeKind::ElementValuePair {
        match find_role(c.children@, FieldRole::Value, 0) {
            Some(v) => if c.children@[v].kind == JavaNodeKind::ElementValueArrayInitializer {
                keyed_upto(role_text(c, FieldRole::Key), c.children@[v].children@,
                    c.children@[v].children@.len() as int)
            } else {
                seq![(role_text(c, FieldRole::Key), c.children@[v].text@)]
            },
            None => Seq::empty(),
        }
    } else if c.kind == JavaNodeKind::ElementValueArrayInitializer {
        keyed_upto("value"@, c.children@, c.children@.len() as int)
    } else if is_item(c.kind) {
        seq![("value"@, c.text@)]
    } else {
        Seq::empty()
    }
}

fn extract_argument_values(c: &SyntaxNode) -> (r: Vec<(String, String)>)
    ensures
        pairs_view(r@) == argument_values(*c),
{
    if c.kind == JavaNodeKind::ElementValuePair {
        match child_with_role(&c.children, FieldRole::Value) {
            Some(v) => {
                let key = text_with_role(c, FieldRole::Key);
                let vn = &c.children[v];
                if vn.kind == JavaNodeKind::ElementValueArrayInitializer {
                    keyed_items(&key, &vn.children)
                } else {
                    let p = (key, vn.text.clone());
                    let out = vec![p];
                    assert(pairs_view(out@) =~= seq![(p.0@, p.1@)]);
                    out
                }
            },
            None => {
                let out: Vec<(String, String)> = Vec::new();
                assert(pairs_view(out@) =~= Seq::empty());
                out
            },
        }
    } else if c.kind == JavaNodeKind::ElementValueArrayInitializer {
        keyed_items(&"value".to_string(), &c.children)
    } else if c.kind != JavaNodeKind::Punctuation && c.kind != JavaNodeKind::LineComment
        && c.kind != JavaNodeKind::BlockComment {
        let p = ("value".to_string(), c.text.clone());
        let out = vec![p];
        assert(pairs_view(out@) =~= seq![(p.0@, p.1@)]);
        out
    } else {
        let out: Vec<(String, String)> = Vec::new();
        assert(pairs_view(out@) =~= Seq::empty());
        out
    }
}

pub open spec fn arguments_upto(cs: Seq<SyntaxNode>, n: int) -> Seq<(Seq<char>, Seq<char>)>
    decreases n,
{
    if n <= 0 {
        Seq::empty()
    } else {
        arguments_upto(cs, n - 1) + argument_values(cs[n - 1])
    }
}

/// The model of an annotation node: its name and the pairs of its
/// argument list.
pub open spec fn annotation_of(a: SyntaxNode) -> AnnotationView {
    AnnotationView {
        name: role_text(a, FieldRole::Name),
        values: match find_role(a.children@, FieldRole::Arguments, 0) {
            Some(i) => arguments_upto(a.children@[i].children@, a.children@[i].children@.len() as int),
            None => Seq::empty(),
        },
    }
}

/// Reads one annotation node.
pub fn parse_annotation(a: &SyntaxNode) -> (r: Annotation)
    ensures
        r@ == annotation_of(*a),
{
    let name = text_with_role(a, FieldRole::Name);
    let mut values: Vec<(String, String)> = Vec::new();
    match child_with_role(&a.children, FieldRole::Arguments) {
        Some(k) => {
            let cs = &a.children[k].children;
            let mut i: usize = 0;
            while i < cs.len()
                invariant
                    i <= cs@.len(),
                    pairs_view(values@) == arguments_upto(cs@, i as int),
                decreases cs@.len() - i,
            {
                let mut more = extract_argument_values(&cs[i]);
                proof {
                    assert(pairs_view(values@ + more@) =~= pairs_view(values@) + pairs_view(more@));
                }
                values.append(&mut more);
                i = i + 1;
            }
        },
        None => {},
    }
    let r = Annotation { name, values };
    assert(r@.values == annotation_of(*a).values);
    r
}

pub open spec fn is_annotation(k: JavaNodeKind) -> bool {
    k == JavaNodeKind::Annotation || k == JavaNodeKind::MarkerAnnotation
}

/// The annotations among the first `n` nodes.
pub open spec fn annots_upto(cs: Seq<SyntaxNode>, n: int) -> Seq<AnnotationView>
    decreases n,
{
    if n <= 0 {
        Seq::empty()
    } else if is_annotation(cs[n - 1].kind) {
        annots_upto(cs, n - 1).push(annotation_of(cs[n - 1]))
    } else {
        annots_upto(cs, n - 1)
    }
}

fn annotations_in(cs: &Vec<SyntaxNode>) -> (r: Vec<Annotation>)
    ensures
        annots_view(r@) == annots_upto(cs@, cs@.len() as int),
{
    let mut out: Vec<Annotation> = Vec::new();
    let mut i: usize = 0;
    while i < cs.len()
        invariant
            i <= cs@.len(),
            annots_view(out@) == annots_upto(cs@, i as int),
        decreases cs@.len() - i,
    {
        if cs[i].kind == JavaNodeKind::Annotation || cs[i].kind == JavaNodeKind::MarkerAnnotation {
            let a = parse_annotation(&cs[i]);
            proof {
                assert(annots_view(out@.push(a)) =~= annots_view(out@).push(a@));
            }
            out.push(a);
        }
        i = i + 1;
    }
    out
}

/// What one child of a declaration adds to its annotations: those inside
/// its modifiers node, or itself when it is an annotation.
pub open spec fn child_annotations(c: SyntaxNode) -> Seq<AnnotationView> {
    if c.kind == JavaNodeKind::Modifiers {
        annots_upto(c.children@, c.children@.len() as int)
    } else if is_annotation(c.kind) {
        seq![annotation_of(c)]
    } else {
        Seq::empty()
    }
}

pub open spec fn decl_annots_upto(cs: Seq<SyntaxNode>, n: int) -> Seq<AnnotationView>
    decreases n,
{
    if n <= 0 {
        Seq::empty()
    } else {
        decl_annots_upto(cs, n - 1) + child_annotations(cs[n - 1])
    }
}

/// The annotations of a declaration, in source order.
pub open spec fn annotations_of(n: SyntaxNode) -> Seq<AnnotationView> {
    decl_annots_upto(n.children@, n.children@.len() as int)
}

pub fn extract_annotations(n: &SyntaxNode) -> (r: Vec<Annotation>)
    ensures
        annots_view(r@) == annotations_of(*n),
{
    let cs = &n.children;
    let mut out: Vec<Annotation> = Vec::new();
    let mut i: usize = 0;
    while i < cs.len()
        invariant
            i <= cs@.len(),
            annots_view(out@) == decl_annots_upto(cs@, i as int),
        decreases cs@.len() - i,
    {
        let c = &cs[i];
        let mut more: Vec<Annotation> = if c.kind == JavaNodeKind::Modifiers {
            annotations_in(&c.children)
        } else if c.kind == JavaNodeKind::Annotation || c.kind == JavaNodeKind::MarkerAnnotation {
            let a = parse_annotation(c);
            let v = vec![a];
            assert(annots_view(v@) =~= seq![a@]);
            v
        } else {
            let v: Vec<Annotation> = Vec::new();
            assert(annots_view(v@) =~= Seq::empty());
            v
        };
        proof {
            assert(annots_view(out@ + more@) =~= annots_view(out@) + annots_view(more@));
        }
        out.append(&mut more);
        i = i + 1;
    }
    out
}


// ---- fields ----

/// The fields that one variable declarator at `cs[n - 1]` and before it
/// give, for the field declaration `f`.
pub open spec fn declarators_upto(f: SyntaxNode, doc: Option<Seq<char>>, cs: Seq<SyntaxNode>, n: int) -> Seq<FieldView>
    decreases n,
{
    if n <= 0 {
        Seq::empty()
    } else if cs[n - 1].kind == JavaNodeKind::VariableDeclarator
        && find_role(cs[n - 1].children@, FieldRole::Name, 0) is Some {
        declarators_upto(f, doc, cs, n - 1).push(FieldView {
            name: role_text(cs[n - 1], FieldRole::Name),
            declared_type: role_text(f, FieldRole::Type),
            modifiers: modifiers_of(f),
            annotations: annotations_of(f),
            documentation: doc,
        })
    } else {
        declarators_upto(f, doc, cs, n - 1)
    }
}

/// What the member at `k` of a type body adds to the fields: one field per
/// named declarator of a field declaration that has a type.
pub open spec fn member_fields(cs: Seq<SyntaxNode>, k: int) -> Seq<FieldView> {
    let f = cs[k];
    if f.kind == JavaNodeKind::FieldDeclaration && find_role(f.children@, FieldRole::Type, 0) is Some {
        declarators_upto(f, doc_before(cs, k), f.children@, f.children@.len() as int)
    } else {
        Seq::empty()
    }
}

pub open spec fn fields_upto(cs: Seq<SyntaxNode>, n: int) -> Seq<FieldView>
    decreases n,
{
    if n <= 0 {
        Seq::empty()
    } else {
        fields_upto(cs, n - 1) + member_fields(cs, n - 1)
    }
}

fn parse_field_declaration(cs: &Vec<SyntaxNode>, k: usize) -> (r: Vec<Field>)
    requires
        k < cs@.len(),
    ensures
        fields_view(r@) == member_fields(cs@, k as int),
{
    let f = &cs[k];
    let mut out: Vec<Field> = Vec::new();
    if f.kind == JavaNodeKind::FieldDeclaration {
        if let Some(t) = child_with_role(&f.children, FieldRole::Type) {
            let ds = &f.children;
            let mut i: usize = 0;
            while i < ds.len()
                invariant
                    i <= ds@.len(),
                    k < cs@.len(),
                    f == cs@[k as int],
                    ds == f.children,
                    find_role(f.children@, FieldRole::Type, 0) is Some,
                    fields_view(out@) == declarators_upto(*f, doc_before(cs@, k as int), ds@, i as int),
                decreases ds@.len() - i,
            {
                let d = &ds[i];
                if d.kind == JavaNodeKind::VariableDeclarator {
                    if let Some(nm) = child_with_role(&d.children, FieldRole::Name) {
                        let field = Field {
                            name: d.children[nm].text.clone(),
                            declared_type: text_with_role(f, FieldRole::Type),
                            modifiers: extract_modifiers(f),
                            annotations: extract_annotations(f),
                            documentation: documentation_before(cs, k),
                        };
                        proof {
                            assert(fields_view(out@.push(field)) =~= fields_view(out@).push(field@));
                        }
                        out.push(field);
                    }
                }
                i = i + 1;
            }
            return out;
        }
    }
    assert(fields_view(out@) =~= Seq::empty());
    out
}

/// The fields declared in a type body.
pub open spec fn fields_of_body(cs: Seq<SyntaxNode>) -> Seq<FieldView> {
    fields_upto(cs, cs.len() as int)
}

pub fn extract_fields(cs: &Vec<SyntaxNode>) -> (r: Vec<Field>)
    ensures
        fields_view(r@) == fields_of_body(cs@),
{
    let mut out: Vec<Field> = Vec::new();
    let mut i: usize = 0;
    while i < cs.len()
        invariant
            i <= cs@.len(),
            fields_view(out@) == fields_upto(cs@, i as int),
        decreases cs@.len() - i,
    {
        let mut more = parse_field_declaration(cs, i);
        proof {
            assert(fields_view(out@ + more@) =~= fields_view(out@) + fields_view(more@));
        }
        out.append(&mut more);
        i = i + 1;
    }
    out
}

// ---- parameters and methods ----

/// Index of the first child at or after `i` that `p` picks.
pub open spec fn find_pick(cs: Seq<SyntaxNode>, p: Pick, i: int) -> Option<int>
    decreases cs.len() - i,
{
    if i < 0 || i >= cs.len() {
        None
    } else if picks(p, cs[i].kind) {
        Some(i)
    } else {
        find_pick(cs, p, i + 1)
    }
}

proof fn lemma_find_pick_bounds(cs: Seq<SyntaxNode>, p: Pick, i: int)
    ensures
        find_pick(cs, p, i) matches Some(k) ==> 0 <= k < cs.len(),
    decreases cs.len() - i,
{
    if 0 <= i < cs.len() && !picks(p, cs[i].kind) {
        lemma_find_pick_bounds(cs, p, i + 1);
    }
}

/// The first child that `p` picks.
pub fn child_picked(cs: &Vec<SyntaxNode>, p: Pick) -> (r: Option<usize>)
    ensures
        r is Some <==> find_pick(cs@, p, 0) is Some,
        r matches Some(k) ==> k < cs@.len() && find_pick(cs@, p, 0) == Some(k as int),
{
    proof {
        lemma_find_pick_bounds(cs@, p, 0);
    }
    let mut i: usize = 0;
    while i < cs.len()
        invariant
            i <= cs@.len(),
            find_pick(cs@, p, 0) == find_pick(cs@, p, i as int),
        decreases cs@.len() - i,
    {
        if pick(p, cs[i].kind) {
            return Some(i);
        }
        i = i + 1;
    }
    None
}

/// A parameter with both a type and a name: a formal parameter, or a
/// variable-arity one (`String... args`).
pub open spec fn is_full_parameter(p: SyntaxNode) -> bool {
    if p.kind == JavaNodeKind::FormalParameter {
        find_role(p.children@, FieldRole::Type, 0) is Some && find_role(p.children@, FieldRole::Name, 0) is Some
    } else if p.kind == JavaNodeKind::SpreadParameter {
        &&& find_pick(p.children@, Pick::TypeName, 0) is Some
        &&& find_kind(p.children@, JavaNodeKind::VariableDeclarator, 0) matches Some(d)
        &&& find_role(p.children@[d].children@, FieldRole::Name, 0) is Some
    } else {
        false
    }
}

/// The model of a parameter; a variable-arity one has its element type
/// followed by `...`.
pub open spec fn parameter_of(p: SyntaxNode) -> ParameterView {
    if p.kind == JavaNodeKind::SpreadParameter {
        ParameterView {
            name: match find_kind(p.children@, JavaNodeKind::VariableDeclarator, 0) {
                Some(d) => role_text(p.children@[d], FieldRole::Name),
                None => Seq::empty(),
            },
            declared_type: match find_pick(p.children@, Pick::TypeName, 0) {
                Some(t) => p.children@[t].text@ + "..."@,
                None => Seq::empty(),
            },
            annotations: annotations_of(p),
        }
    } else {
        ParameterView {
            name: role_text(p, FieldRole::Name),
            declared_type: role_text(p, FieldRole::Type),
            annotations: annotations_of(p),
        }
    }
}

fn parse_parameter(p: &SyntaxNode) -> (r: Option<Parameter>)
    ensures
        r is Some <==> is_full_parameter(*p),
        r matches Some(x) ==> x@ == parameter_of(*p),
{
    if p.kind == JavaNodeKind::FormalParameter {
        let t = child_with_role(&p.children, FieldRole::Type);
        let nm = child_with_role(&p.children, FieldRole::Name);
        if t.is_some() && nm.is_some() {
            Some(Parameter {
                name: text_with_role(p, FieldRole::Name),
                declared_type: text_with_role(p, FieldRole::Type),
                annotations: extract_annotations(p),
            })
        } else {
            None
        }
    } else if p.kind == JavaNodeKind::SpreadParameter {
        match (child_picked(&p.children, Pick::TypeName), child_of_kind(&p.children, JavaNodeKind::VariableDeclarator)) {
            (Some(t), Some(d)) => {
                let decl = &p.children[d];
                if child_with_role(&decl.children, FieldRole::Name).is_some() {
                    let mut ty = p.children[t].text.clone();
                    ty.append("...");
                    Some(Parameter {
                        name: text_with_role(decl, FieldRole::Name),
                        declared_type: ty,
                        annotations: extract_annotations(p),
                    })
                } else {
                    None
                }
            },
            _ => None,
        }
    } else {
        None
    }
}

pub open spec fn params_upto(cs: Seq<SyntaxNode>, n: int) -> Seq<ParameterView>
    decreases n,
{
    if n <= 0 {
        Seq::empty()
    } else if is_full_parameter(cs[n - 1]) {
        params_upto(cs, n - 1).push(parameter_of(cs[n - 1]))
    } else {
        params_upto(cs, n - 1)
    }
}

/// The parameters of a method or constructor.
pub open spec fn parameters_of(m: SyntaxNode) -> Seq<ParameterView> {
    match find_role(m.children@, FieldRole::Parameters, 0) {
        Some(i) => params_upto(m.children@[i].children@, m.children@[i].children@.len() as int),
        None => Seq::empty(),
    }
}

pub fn extract_parameters(m: &SyntaxNode) -> (r: Vec<Parameter>)
    ensures
        params_view(r@) == parameters_of(*m),
{
    let mut out: Vec<Parameter> = Vec::new();
    match child_with_role(&m.children, FieldRole::Parameters) {
        Some(k) => {
            let cs = &m.children[k].children;
            let mut i: usize = 0;
            while i < cs.len()
                invariant
                    i <= cs@.len(),
                    params_view(out@) == params_upto(cs@, i as int),
                decreases cs@.len() - i,
            {
                if let Some(param) = parse_parameter(&cs[i]) {
                    proof {
                        assert(params_view(out@.push(param)) =~= params_view(out@).push(param@));
                    }
                    out.push(param);
                }
                i = i + 1;
            }
        },
        None => {
            assert(params_view(out@) =~= Seq::empty());
        },
    }
    out
}

/// A method or constructor with a name.
pub open spec fn is_named_method(m: SyntaxNode) -> bool {
    (m.kind == JavaNodeKind::MethodDeclaration || m.kind == JavaNodeKind::ConstructorDeclaration)
        && find_role(m.children@, FieldRole::Name, 0) is Some
}

/// The model of the method at `k` of a type body. Without a declared
/// return type (a constructor) the return type is `void`.
pub open spec fn method_of(cs: Seq<SyntaxNode>, k: int) -> MethodView {
    let m = cs[k];
    MethodView {
        name: role_text(m, FieldRole::Name),
        return_type: match find_role(m.children@, FieldRole::Type, 0) {
            Some(i) => m.children@[i].text@,
            None => "void"@,
        },
        parameters: parameters_of(m),
        modifiers: modifiers_of(m),
        annotations: annotations_of(m),
        type_parameters: type_params_of(m),
        throws: throws_of(m),
        range: m.range,
        body_range: match find_role(m.children@, FieldRole::Body, 0) {
            Some(i) => Some(m.children@[i].range),
            None => None,
        },
        documentation: doc_before(cs, k),
    }
}

pub open spec fn methods_upto(cs: Seq<SyntaxNode>, n: int) -> Seq<MethodView>
    decreases n,
{
    if n <= 0 {
        Seq::empty()
    } else if is_named_method(cs[n - 1]) {
        methods_upto(cs, n - 1).push(method_of(cs, n - 1))
    } else {
        methods_upto(cs, n - 1)
    }
}

/// The methods and constructors declared in a type body, in source order.
pub open spec fn methods_of_body(cs: Seq<SyntaxNode>) -> Seq<MethodView> {
    methods_upto(cs, cs.len() as int)
}

pub fn parse_method(cs: &Vec<SyntaxNode>, k: usize) -> (r: Method)
    requires
        k < cs@.len(),
    ensures
        r@ == method_of(cs@, k as int),
{
    let m = &cs[k];
    let return_type = match child_with_role(&m.children, FieldRole::Type) {
        Some(i) => m.children[i].text.clone(),
        None => "void".to_string(),
    };
    let body_range = match child_with_role(&m.children, FieldRole::Body) {
        Some(i) => Some(m.children[i].range),
        None => None,
    };
    Method {
        name: text_with_role(m, FieldRole::Name),
        return_type,
        parameters: extract_parameters(m),
        modifiers: extract_modifiers(m),
        annotations: extract_annotations(m),
        type_parameters: extract_type_parameters(m),
        throws: extract_throws(m),
        range: m.range,
        body_range,
        documentation: documentation_before(cs, k),
    }
}

pub fn extract_methods(cs: &Vec<SyntaxNode>) -> (r: Vec<Method>)
    ensures
        methods_view(r@) == methods_of_body(cs@),
{
    let mut out: Vec<Method> = Vec::new();
    let mut i: usize = 0;
    while i < cs.len()
        invariant
            i <= cs@.len(),
            methods_view(out@) == methods_upto(cs@, i as int),
        decreases cs@.len() - i,
    {
        let m = &cs[i];
        if m.kind == JavaNodeKind::MethodDeclaration || m.kind == JavaNodeKind::ConstructorDeclaration {
            if child_with_role(&m.children, FieldRole::Name).is_some() {
                let method = parse_method(cs, i);
                proof {
                    assert(methods_view(out@.push(method)) =~= methods_view(out@).push(method@));
                }
                out.push(method);
            }
        }
        i = i + 1;
    }
    out
}


// ---- declarations ----

/// The keyword that introduces a kind of type.
pub open spec fn kind_keyword(k: DeclarationKind) -> Seq<char> {
    match k {
        DeclarationKind::Class => "class"@,
        DeclarationKind::Interface => "interface"@,
        DeclarationKind::Enum => "enum"@,
        DeclarationKind::Record => "record"@,
        DeclarationKind::Annotation => "@interface"@,
    }
}

/// The fully qualified name of `name` in package `pkg`; the default
/// package adds nothing.
pub open spec fn fqn_of(pkg: Seq<char>, name: Seq<char>) -> Seq<char> {
    if pkg.len() == 0 {
        name
    } else {
        pkg + "."@ + name
    }
}

/// The first `n` modifiers, each followed by one space.
pub open spec fn modifier_prefix(mods: Seq<Seq<char>>, n: int) -> Seq<char>
    decreases n,
{
    if n <= 0 {
        Seq::empty()
    } else {
        modifier_prefix(mods, n - 1) + mods[n - 1] + " "@
    }
}

/// The rendered signature: the modifiers in source order, the kind's
/// keyword and the fully qualified name, separated by single spaces.
pub open spec fn signature_of(mods: Seq<Seq<char>>, kind: DeclarationKind, pkg: Seq<char>, name: Seq<char>) -> Seq<char> {
    modifier_prefix(mods, mods.len() as int) + kind_keyword(kind) + " "@ + fqn_of(pkg, name)
}

/// The declared name: the first identifier child, or `Anonymous`.
pub open spec fn declared_name(n: SyntaxNode) -> Seq<char> {
    match find_kind(n.children@, JavaNodeKind::Identifier, 0) {
        Some(i) => n.children@[i].text@,
        None => "Anonymous"@,
    }
}

pub open spec fn declared_kind(n: SyntaxNode) -> DeclarationKind {
    match n.kind.spec_declaration_kind() {
        Some(k) => k,
        None => DeclarationKind::Class,
    }
}

/// The children of a declaration's body; empty without a body.
pub open spec fn body_of(n: SyntaxNode) -> Seq<SyntaxNode> {
    match find_role(n.children@, FieldRole::Body, 0) {
        Some(i) => n.children@[i].children@,
        None => Seq::empty(),
    }
}

/// The model of the declaration at `k` among `cs`, in package `pkg`.
pub open spec fn declaration_of(cs: Seq<SyntaxNode>, k: int, pkg: Seq<char>) -> DeclarationView {
    let n = cs[k];
    DeclarationView {
        name: declared_name(n),
        fqn: fqn_of(pkg, declared_name(n)),
        kind: declared_kind(n),
        modifiers: modifiers_of(n),
        annotations: annotations_of(n),
        signature: signature_of(modifiers_of(n), declared_kind(n), pkg, declared_name(n)),
        extends: extends_of(n),
        implements: implements_of(n),
        type_parameters: type_params_of(n),
        fields: fields_of_body(body_of(n)),
        methods: methods_of_body(body_of(n)),
        range: n.range,
        documentation: doc_before(cs, k),
    }
}

/// The positions of the type declarations among the first `n` nodes.
pub open spec fn decl_positions(cs: Seq<SyntaxNode>, n: int) -> Seq<int>
    decreases n,
{
    if n <= 0 {
        Seq::empty()
    } else if cs[n - 1].kind.spec_is_declaration() {
        decl_positions(cs, n - 1).push(n - 1)
    } else {
        decl_positions(cs, n - 1)
    }
}

pub open spec fn declaration_positions(cs: Seq<SyntaxNode>) -> Seq<int> {
    decl_positions(cs, cs.len() as int)
}

/// `d` is what the declaration at `k` among `cs` gives in package `pkg`,
/// checked down to `depth` levels of nesting.
pub open spec fn decl_matches_upto(d: Declaration, cs: Seq<SyntaxNode>, k: int, pkg: Seq<char>, depth: int) -> bool
    decreases depth, 0int,
{
    let body = body_of(cs[k]);
    let ps = declaration_positions(body);
    &&& d@ == declaration_of(cs, k, pkg)
    &&& d.nested@.len() == ps.len()
    &&& (depth > 0 ==> nested_match(d.nested@, body, ps, pkg, depth - 1, ps.len() as int))
}

/// The first `n` of `ds` match the declarations at positions `ps` of `body`.
pub open spec fn nested_match(ds: Seq<Declaration>, body: Seq<SyntaxNode>, ps: Seq<int>, pkg: Seq<char>, depth: int, n: int) -> bool
    decreases depth, n,
{
    if n <= 0 || depth < 0 {
        true
    } else {
        nested_match(ds, body, ps, pkg, depth, n - 1) && decl_matches_upto(ds[n - 1], body, ps[n - 1], pkg, depth)
    }
}

/// `d` is what the declaration at `k` among `cs` gives in package `pkg`,
/// down to its most deeply nested types.
pub open spec fn decl_matches(d: Declaration, cs: Seq<SyntaxNode>, k: int, pkg: Seq<char>) -> bool {
    forall|depth: int| #[trigger] decl_matches_upto(d, cs, k, pkg, depth)
}

proof fn lemma_nested_match(ds: Seq<Declaration>, body: Seq<SyntaxNode>, ps: Seq<int>, pkg: Seq<char>, depth: int, n: int)
    requires
        n <= ds.len(),
        n <= ps.len(),
        forall|q: int| 0 <= q < n ==> #[trigger] decl_matches(ds[q], body, ps[q], pkg),
    ensures
        nested_match(ds, body, ps, pkg, depth, n),
    decreases n,
{
    if n > 0 && depth >= 0 {
        lemma_nested_match(ds, body, ps, pkg, depth, n - 1);
        assert(decl_matches(ds[n - 1], body, ps[n - 1], pkg));
        assert(decl_matches_upto(ds[n - 1], body, ps[n - 1], pkg, depth));
    }
}

proof fn lemma_decl_matches_intro(d: Declaration, cs: Seq<SyntaxNode>, k: int, pkg: Seq<char>)
    requires
        d@ == declaration_of(cs, k, pkg),
        d.nested@.len() == declaration_positions(body_of(cs[k])).len(),
        forall|q: int| 0 <= q < d.nested@.len() ==> #[trigger] decl_matches(d.nested@[q], body_of(cs[k]),
            declaration_positions(body_of(cs[k]))[q], pkg),
    ensures
        decl_matches(d, cs, k, pkg),
{
    let body = body_of(cs[k]);
    let ps = declaration_positions(body);
    assert forall|depth: int| #[trigger] decl_matches_upto(d, cs, k, pkg, depth) by {
        if depth > 0 {
            lemma_nested_match(d.nested@, body, ps, pkg, depth - 1, ps.len() as int);
        }
    }
}

/// `ds` are what the declarations among `cs` give, in order.
pub open spec fn decls_match(ds: Seq<Declaration>, cs: Seq<SyntaxNode>, pkg: Seq<char>) -> bool {
    let ps = declaration_positions(cs);
    &&& ds.len() == ps.len()
    &&& forall|j: int| 0 <= j < ps.len() ==> #[trigger] decl_matches(ds[j], cs, ps[j], pkg)
}

proof fn lemma_positions_bounded(cs: Seq<SyntaxNode>, n: int)
    requires
        n <= cs.len(),
    ensures
        forall|j: int| 0 <= j < decl_positions(cs, n).len() ==> 0 <= #[trigger] decl_positions(cs, n)[j] < n,
    decreases n,
{
    if n > 0 {
        lemma_positions_bounded(cs, n - 1);
        let prev = decl_positions(cs, n - 1);
        let cur = decl_positions(cs, n);
        assert forall|j: int| 0 <= j < cur.len() implies 0 <= #[trigger] cur[j] < n by {
            if j < prev.len() {
                assert(cur[j] == prev[j]);
            }
        }
    }
}

fn kind_keyword_text(k: DeclarationKind) -> (r: String)
    ensures
        r@ == kind_keyword(k),
{
    match k {
        DeclarationKind::Class => "class".to_string(),
        DeclarationKind::Interface => "interface".to_string(),
        DeclarationKind::Enum => "enum".to_string(),
        DeclarationKind::Record => "record".to_string(),
        DeclarationKind::Annotation => "@interface".to_string(),
    }
}

/// Builds the fully qualified name of `name` in package `pkg`.
pub fn build_fqn(pkg: &String, name: &String) -> (r: String)
    ensures
        r@ == fqn_of(pkg@, name@),
{
    if pkg.as_str().is_empty() {
        name.clone()
    } else {
        let mut r = pkg.clone();
        r.append(".");
        r.append(name.as_str());
        r
    }
}

/// Renders the signature of a declaration.
pub fn build_signature(mods: &Vec<String>, kind: DeclarationKind, pkg: &String, name: &String) -> (r: String)
    ensures
        r@ == signature_of(strs_view(mods@), kind, pkg@, name@),
{
    let ghost ms = strs_view(mods@);
    let mut r = String::new();
    let mut i: usize = 0;
    while i < mods.len()
        invariant
            i <= mods@.len(),
            ms == strs_view(mods@),
            r@ == modifier_prefix(ms, i as int),
        decreases mods@.len() - i,
    {
        r.append(mods[i].as_str());
        r.append(" ");
        i = i + 1;
    }
    let kw = kind_keyword_text(kind);
    r.append(kw.as_str());
    r.append(" ");
    let fqn = build_fqn(pkg, name);
    r.append(fqn.as_str());
    r
}

fn declared_name_text(n: &SyntaxNode) -> (r: String)
    ensures
        r@ == declared_name(*n),
{
    match child_of_kind(&n.children, JavaNodeKind::Identifier) {
        Some(i) => n.children[i].text.clone(),
        None => "Anonymous".to_string(),
    }
}

/// Reads the type declaration at `k` among `cs`, with everything nested in
/// it, in package `pkg`.
pub fn parse_declaration(cs: &Vec<SyntaxNode>, k: usize, pkg: &String) -> (r: Declaration)
    requires
        k < cs@.len(),
    ensures
        decl_matches(r, cs@, k as int, pkg@),
    decreases cs@[k as int],
{
    let n = &cs[k];
    let name = declared_name_text(n);
    let kind = match n.kind.to_declaration_kind() {
        Some(dk) => dk,
        None => DeclarationKind::Class,
    };
    let modifiers = extract_modifiers(n);
    let signature = build_signature(&modifiers, kind, pkg, &name);
    let fqn = build_fqn(pkg, &name);
    let empty: Vec<SyntaxNode> = Vec::new();
    let b = child_with_role(&n.children, FieldRole::Body);
    let body: &Vec<SyntaxNode> = match b {
        Some(i) => &n.children[i].children,
        None => &empty,
    };
    assert(body@ == body_of(*n));
    let fields = extract_fields(body);
    let methods = extract_methods(body);
    let ghost ps = declaration_positions(body@);
    let mut nested: Vec<Declaration> = Vec::new();
    let mut j: usize = 0;
    while j < body.len()
        invariant
            j <= body@.len(),
            n == cs@[k as int],
            body@ == body_of(*n),
            b matches Some(i) ==> i < n.children@.len() && body == n.children@[i as int].children,
            b is None ==> body@.len() == 0,
            ps == declaration_positions(body@),
            nested@.len() == decl_positions(body@, j as int).len(),
            forall|q: int| 0 <= q < nested@.len() ==> #[trigger] decl_matches(nested@[q], body@,
                decl_positions(body@, j as int)[q], pkg@),
        decreases body@.len() - j,
    {
        if body[j].kind.is_declaration() {
            proof {
                let i = b->0;
                assert(decreases_to!(cs@[k as int] => n.children@[i as int].children@[j as int]));
            }
            let d = parse_declaration(body, j, pkg);
            nested.push(d);
        }
        j = j + 1;
    }
    let r = Declaration {
        name,
        fqn,
        kind,
        modifiers,
        annotations: extract_annotations(n),
        signature,
        extends: extract_extends(n),
        implements: extract_implements(n),
        type_parameters: extract_type_parameters(n),
        fields,
        methods,
        nested,
        range: n.range,
        documentation: documentation_before(cs, k),
    };
    assert(r@.fields == declaration_of(cs@, k as int, pkg@).fields);
    assert(r@.methods == declaration_of(cs@, k as int, pkg@).methods);
    assert(r@ == declaration_of(cs@, k as int, pkg@));
    assert(j == body@.len());
    assert(decl_positions(body@, j as int) == ps);
    assert(r.nested@.len() == ps.len());
    assert forall|q: int| 0 <= q < ps.len() implies #[trigger] decl_matches(r.nested@[q], body_of(cs@[k as int]), ps[q], pkg@) by {
        assert(decl_matches(nested@[q], body@, decl_positions(body@, j as int)[q], pkg@));
    }
    proof {
        lemma_decl_matches_intro(r, cs@, k as int, pkg@);
    }
    assert(decl_matches(r, cs@, k as int, pkg@));
    r
}


/// The module named by the file's module declaration, if any.
pub open spec fn module_of(root: SyntaxNode) -> Option<Seq<char>> {
    match find_kind(root.children@, JavaNodeKind::ModuleDeclaration, 0) {
        Some(i) => Some(root.children@[i].text@),
        None => None,
    }
}

/// The name given to the MD5 digest of a text, written as 32 lowercase hex
/// digits.
pub uninterp spec fn md5_hex(s: Seq<char>) -> Seq<char>;

/// Relies on md5::compute and its `LowerHex` rendering: two hex digits per
/// byte of the 16-byte digest of the text's UTF-8 bytes.
#[verifier::external_body]
fn md5_of(source: &str) -> (r: String)
    ensures
        r@ == md5_hex(source@),
        r@.len() == 32,
{
    format!("{:x}", md5::compute(source))
}

/// The content hash of a source text: a function of the text alone.
pub fn content_hash(source: &str) -> (r: String)
    ensures
        r@ == md5_hex(source@),
        r@.len() == 32,
{
    md5_of(source)
}

/// `ds` are what the type declarations among `cs` give, in order.
pub fn extract_declarations(cs: &Vec<SyntaxNode>, pkg: &String) -> (r: Vec<Declaration>)
    ensures
        decls_match(r@, cs@, pkg@),
{
    let mut out: Vec<Declaration> = Vec::new();
    let mut i: usize = 0;
    while i < cs.len()
        invariant
            i <= cs@.len(),
            out@.len() == decl_positions(cs@, i as int).len(),
            forall|q: int| 0 <= q < out@.len() ==> #[trigger] decl_matches(out@[q], cs@,
                decl_positions(cs@, i as int)[q], pkg@),
        decreases cs@.len() - i,
    {
        if cs[i].kind.is_declaration() {
            let d = parse_declaration(cs, i, pkg);
            out.push(d);
        }
        i = i + 1;
    }
    out
}

/// `f` is what the extractor gives for the file at `path` with text
/// `source` and grammar tree `root`.
pub open spec fn file_matches(f: JavaFile, path: Seq<char>, source: Seq<char>, root: SyntaxNode) -> bool {
    &&& f.path@ == path
    &&& opt_view(f.module) == module_of(root)
    &&& f.package@ == package_of(root)
    &&& strs_view(f.imports@) == imports_upto(root.children@, root.children@.len() as int)
    &&& decls_match(f.declarations@, root.children@, package_of(root))
    &&& f.source_hash@ == md5_hex(source)
}

/// Builds the model of one file from its grammar tree.
pub fn extract_file(path: &str, source: &str, root: &SyntaxNode) -> (r: JavaFile)
    ensures
        file_matches(r, path@, source@, *root),
{
    let package = extract_package(root);
    let module = match child_of_kind(&root.children, JavaNodeKind::ModuleDeclaration) {
        Some(i) => Some(root.children[i].text.clone()),
        None => None,
    };
    let imports = extract_imports(root);
    let declarations = extract_declarations(&root.children, &package);
    JavaFile {
        path: path.to_string(),
        module,
        package,
        imports,
        declarations,
        source_hash: content_hash(source),
    }
}

/// Why a file could not be read into the model.
#[derive(Clone, Copy, Debug, PartialEq, Eq, Structural)]
pub enum ParseFailure {
    /// The grammar could not be loaded, so no tree was produced.
    GrammarUnavailable,
}

/// Parses Java source files into the declaration model.
pub struct JavaParser {}

impl JavaParser {
    pub fn new() -> (r: JavaParser) {
        JavaParser {}
    }

    /// Parses the text of the file at `path`. The grammar tolerates any text,
    /// so this always succeeds: it returns the extractor's model of a grammar
    /// tree of the text, every node of which has a 1-based range.
    pub fn parse_source(&self, path: &str, source: &str) -> (r: Result<JavaFile, ParseFailure>)
        ensures
            r is Ok,
            r matches Ok(f) ==> exists|root: SyntaxNode| #[trigger] file_matches(f, path@, source@, root)
                && crate::syntax::range_one_based(root.range) && crate::syntax::ranges_one_based(root.children@),
            r matches Ok(f) ==> forall|j: int| 0 <= j < f.declarations@.len()
                ==> crate::syntax::range_one_based(#[trigger] f.declarations@[j].range),
    {
        match crate::syntax::parse_syntax(source) {
            Some(root) => {
                let f = extract_file(path, source, &root);
                assert(file_matches(f, path@, source@, root));
                proof {
                    let cs = root.children@;
                    let pkg = package_of(root);
                    let ps = declaration_positions(cs);
                    crate::syntax::lemma_ranges_each(cs);
                    lemma_positions_bounded(cs, cs.len() as int);
                    assert forall|j: int| 0 <= j < f.declarations@.len()
                        implies crate::syntax::range_one_based(#[trigger] f.declarations@[j].range) by {
                        assert(decl_matches(f.declarations@[j], cs, ps[j], pkg));
                        assert(decl_matches_upto(f.declarations@[j], cs, ps[j], pkg, 0));
                        assert(0 <= ps[j] < cs.len());
                        assert(f.declarations@[j]@.range == cs[ps[j]].range);
                    }
                }
                Ok(f)
            },
            None => Err(ParseFailure::GrammarUnavailable),
        }
    }
}

// ---- laws ----

proof fn lemma_nested_match_at(ds: Seq<Declaration>, body: Seq<SyntaxNode>, ps: Seq<int>, pkg: Seq<char>, depth: int, n: int, q: int)
    requires
        depth >= 0,
        0 <= q < n,
        nested_match(ds, body, ps, pkg, depth, n),
    ensures
        decl_matches_upto(ds[q], body, ps[q], pkg, depth),
    decreases n,
{
    if q < n - 1 {
        lemma_nested_match_at(ds, body, ps, pkg, depth, n - 1, q);
    }
}

/// A declaration's qualified name is its file's package, a dot and its
/// name (just its name in the default package), and its signature ends
/// with that qualified name after the modifiers and kind keyword.
pub proof fn lemma_signature_qualifies_name(d: Declaration, cs: Seq<SyntaxNode>, k: int, pkg: Seq<char>)
    requires
        decl_matches(d, cs, k, pkg),
    ensures
        d.fqn@ == (if pkg.len() == 0 { d.name@ } else { pkg + "."@ + d.name@ }),
        d.signature@ == modifier_prefix(strs_view(d.modifiers@), d.modifiers@.len() as int)
            + kind_keyword(d.kind) + " "@ + d.fqn@,
{
    assert(decl_matches_upto(d, cs, k, pkg, 0));
}

/// Types nested in a declaration are read in the package of the enclosing
/// file, not in a package made from the enclosing type: each one matches
/// its grammar node under the very same package, at every depth.
pub proof fn lemma_nested_same_package(d: Declaration, cs: Seq<SyntaxNode>, k: int, pkg: Seq<char>, q: int)
    requires
        decl_matches(d, cs, k, pkg),
        0 <= q < d.nested@.len(),
    ensures
        decl_matches(d.nested@[q], body_of(cs[k]), declaration_positions(body_of(cs[k]))[q], pkg),
        d.nested@[q].fqn@ == fqn_of(pkg, d.nested@[q].name@),
{
    let body = body_of(cs[k]);
    let ps = declaration_positions(body);
    assert(decl_matches_upto(d, cs, k, pkg, 0));
    assert forall|depth: int| #[trigger] decl_matches_upto(d.nested@[q], body, ps[q], pkg, depth) by {
        if depth >= 0 {
            assert(decl_matches_upto(d, cs, k, pkg, depth + 1));
            lemma_nested_match_at(d.nested@, body, ps, pkg, depth, ps.len() as int, q);
        } else {
            assert(decl_matches_upto(d.nested@[q], body, ps[q], pkg, 0)) by {
                assert(decl_matches_upto(d, cs, k, pkg, 1));
                lemma_nested_match_at(d.nested@, body, ps, pkg, 0, ps.len() as int, q);
            }
        }
    }
    assert(decl_matches_upto(d.nested@[q], body, ps[q], pkg, 0));
}

proof fn lemma_no_positions(cs: Seq<SyntaxNode>, n: int)
    requires
        n <= cs.len(),
        forall|i: int| 0 <= i < cs.len() ==> !(#[trigger] cs[i].kind).spec_is_declaration(),
    ensures
        decl_positions(cs, n).len() == 0,
    decreases n,
{
    if n > 0 {
        lemma_no_positions(cs, n - 1);
    }
}

proof fn lemma_no_imports(cs: Seq<SyntaxNode>, n: int)
    requires
        n <= cs.len(),
        forall|i: int| 0 <= i < cs.len() ==> (#[trigger] cs[i].kind) != JavaNodeKind::ImportDeclaration,
    ensures
        imports_upto(cs, n).len() == 0,
    decreases n,
{
    if n > 0 {
        lemma_no_imports(cs, n - 1);
    }
}

/// A file whose tree holds nothing but comments (or nothing at all) has
/// the default package, no imports and no declarations.
pub proof fn lemma_comments_only(f: JavaFile, path: Seq<char>, source: Seq<char>, root: SyntaxNode)
    requires
        file_matches(f, path, source, root),
        forall|i: int| 0 <= i < root.children@.len() ==> (#[trigger] root.children@[i].kind == JavaNodeKind::LineComment
            || root.children@[i].kind == JavaNodeKind::BlockComment),
    ensures
        f.package@.len() == 0,
        f.imports@.len() == 0,
        f.declarations@.len() == 0,
{
    let cs = root.children@;
    assert forall|i: int| 0 <= i < cs.len() implies !(#[trigger] cs[i].kind).spec_is_declaration() by {
        assert(cs[i].kind == JavaNodeKind::LineComment || cs[i].kind == JavaNodeKind::BlockComment);
    }
    assert forall|i: int| 0 <= i < cs.len() implies (#[trigger] cs[i].kind) != JavaNodeKind::ImportDeclaration by {
        assert(cs[i].kind == JavaNodeKind::LineComment || cs[i].kind == JavaNodeKind::BlockComment);
    }
    lemma_no_positions(cs, cs.len() as int);
    lemma_no_imports(cs, cs.len() as int);
    lemma_find_kind_bounds(cs, JavaNodeKind::PackageDeclaration, 0);
    if let Some(p) = find_kind(cs, JavaNodeKind::PackageDeclaration, 0) {
        assert(cs[p].kind == JavaNodeKind::LineComment || cs[p].kind == JavaNodeKind::BlockComment);
    }
    assert(strs_view(f.imports@).len() == f.imports@.len());
}

} // verus!
