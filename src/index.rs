//! The index projection of a declaration: one flat document per
//! declaration with a fixed set of fields, the way back from a stored
//! document to a declaration, and the query plan for each kind of search.

use vstd::prelude::*;
use crate::java::fqn_of;
use crate::search::{kind_name, kind_name_text, SearchKind, SearchQuery, SearchResult};
use crate::text::{chars_of, is_space, join_seq, string_of};
use crate::types::{
    annots_view, fields_view, methods_view, opt_view, strs_view, Annotation, Declaration, DeclarationKind,
    Field, Method, SourceRange,
};
use vstd::string::StringExecFns;

verus! {

broadcast use vstd::string::group_string_axioms;

/// The fields of the index schema.
#[derive(Clone, Copy, Debug, PartialEq, Eq, Structural)]
pub enum IndexField {
    Name,
    Package,
    FilePath,
    Signature,
    Documentation,
    Kind,
    Modifiers,
    Annotations,
    Extends,
    Implements,
    Fields,
    Methods,
    StartLine,
    EndLine,
    StartColumn,
    EndColumn,
    SourceHash,
}

/// One indexed declaration. Lists are stored as space-joined words; the
/// fields and methods are stored as opaque encoded blobs.
#[derive(Clone, Debug)]
pub struct IndexDocument {
    pub name: String,
    pub package: String,
    pub file_path: String,
    pub signature: String,
    pub documentation: Option<String>,
    pub kind: String,
    pub modifiers: String,
    pub annotations: String,
    pub extends: Option<String>,
    pub implements: String,
    pub fields: String,
    pub methods: String,
    pub start_line: usize,
    pub end_line: usize,
    pub start_column: usize,
    pub end_column: usize,
    pub source_hash: String,
}

/// The names of a list of annotations.
pub open spec fn annotation_names(anns: Seq<Annotation>) -> Seq<Seq<char>> {
    anns.map_values(|a: Annotation| a.name@)
}

/// `ws` joined by single spaces.
pub fn join_words(ws: &Vec<String>) -> (r: String)
    ensures
        r@ == join_seq(strs_view(ws@), " "@),
{
    let ghost v = strs_view(ws@);
    let mut r = String::new();
    let mut i: usize = 0;
    while i < ws.len()
        invariant
            i <= ws@.len(),
            v == strs_view(ws@),
            r@ == join_seq(v.take(i as int), " "@),
        decreases ws@.len() - i,
    {
        let ghost prev = r@;
        if i > 0 {
            r.append(" ");
        }
        r.append(ws[i].as_str());
        proof {
            let t = v.take(i + 1);
            assert(t.drop_last() =~= v.take(i as int));
            assert(t.last() == ws@[i as int]@);
            if i == 0 {
                assert(r@ =~= t[0]);
            } else {
                assert(r@ =~= join_seq(t.drop_last(), " "@) + " "@ + t.last());
            }
        }
        i = i + 1;
    }
    assert(v.take(ws@.len() as int) =~= v);
    r
}

fn annotation_name_list(anns: &Vec<Annotation>) -> (r: Vec<String>)
    ensures
        strs_view(r@) == annotation_names(anns@),
{
    let mut out: Vec<String> = Vec::new();
    let mut i: usize = 0;
    while i < anns.len()
        invariant
            i <= anns@.len(),
            strs_view(out@) == annotation_names(anns@).take(i as int),
        decreases anns@.len() - i,
    {
        let n = anns[i].name.clone();
        proof {
            assert(annotation_names(anns@).take(i + 1) =~= annotation_names(anns@).take(i as int).push(anns@[i as int].name@));
            assert(strs_view(out@.push(n)) =~= strs_view(out@).push(n@));
        }
        out.push(n);
        i = i + 1;
    }
    assert(annotation_names(anns@).take(anns@.len() as int) =~= annotation_names(anns@));
    out
}

/// What a stored document holds, as mathematical values.
pub struct DocumentView {
    pub name: Seq<char>,
    pub package: Seq<char>,
    pub file_path: Seq<char>,
    pub signature: Seq<char>,
    pub documentation: Option<Seq<char>>,
    pub kind: Seq<char>,
    pub modifiers: Seq<char>,
    pub annotations: Seq<char>,
    pub extends: Option<Seq<char>>,
    pub implements: Seq<char>,
    pub fields: Seq<char>,
    pub methods: Seq<char>,
    pub range: SourceRange,
    pub source_hash: Seq<char>,
}

impl View for IndexDocument {
    type V = DocumentView;

    open spec fn view(&self) -> DocumentView {
        DocumentView {
            name: self.name@,
            package: self.package@,
            file_path: self.file_path@,
            signature: self.signature@,
            documentation: opt_view(self.documentation),
            kind: self.kind@,
            modifiers: self.modifiers@,
            annotations: self.annotations@,
            extends: opt_view(self.extends),
            implements: self.implements@,
            fields: self.fields@,
            methods: self.methods@,
            range: SourceRange {
                start_line: self.start_line,
                start_column: self.start_column,
                end_line: self.end_line,
                end_column: self.end_column,
            },
            source_hash: self.source_hash@,
        }
    }
}

/// The document of declaration `d` from the file at `path` in package
/// `pkg` whose text hashes to `hash`.
pub open spec fn document_of(d: Declaration, pkg: Seq<char>, path: Seq<char>, hash: Seq<char>, fields: Seq<char>, methods: Seq<char>) -> DocumentView {
    DocumentView {
        name: d.name@,
        package: pkg,
        file_path: path,
        signature: d.signature@,
        documentation: opt_view(d.documentation),
        kind: kind_name(d.kind),
        modifiers: join_seq(strs_view(d.modifiers@), " "@),
        annotations: join_seq(annotation_names(d.annotations@), " "@),
        extends: opt_view(d.extends),
        implements: join_seq(strs_view(d.implements@), " "@),
        fields,
        methods,
        range: d.range,
        source_hash: hash,
    }
}

/// Builds the document of one declaration; `fields` and `methods` are the
/// encoded member lists.
pub fn create_document(
    d: &Declaration,
    package: &String,
    file_path: &String,
    source_hash: &String,
    fields: String,
    methods: String,
) -> (r: IndexDocument)
    ensures
        r@ == document_of(*d, package@, file_path@, source_hash@, fields@, methods@),
{
    let names = annotation_name_list(&d.annotations);
    IndexDocument {
        name: d.name.clone(),
        package: package.clone(),
        file_path: file_path.clone(),
        signature: d.signature.clone(),
        documentation: match &d.documentation {
            Some(s) => Some(s.clone()),
            None => None,
        },
        kind: kind_name_text(d.kind),
        modifiers: join_words(&d.modifiers),
        annotations: join_words(&names),
        extends: match &d.extends {
            Some(s) => Some(s.clone()),
            None => None,
        },
        implements: join_words(&d.implements),
        fields,
        methods,
        start_line: d.range.start_line,
        end_line: d.range.end_line,
        start_column: d.range.start_column,
        end_column: d.range.end_column,
        source_hash: source_hash.clone(),
    }
}

// ---- reading a document back ----

/// The words read so far and the word being read, after the characters
/// of `s`.
pub open spec fn words_state(s: Seq<char>) -> (Seq<Seq<char>>, Seq<char>)
    decreases s.len(),
{
    if s.len() == 0 {
        (Seq::empty(), Seq::empty())
    } else {
        let (done, cur) = words_state(s.drop_last());
        if is_space(s.last()) {
            if cur.len() > 0 {
                (done.push(cur), Seq::empty())
            } else {
                (done, Seq::empty())
            }
        } else {
            (done, cur.push(s.last()))
        }
    }
}

/// The maximal runs of non-whitespace characters of `s`, in order.
pub open spec fn words_of(s: Seq<char>) -> Seq<Seq<char>> {
    let (done, cur) = words_state(s);
    if cur.len() > 0 { done.push(cur) } else { done }
}

/// Splits `s` at whitespace into its words.
pub fn split_words(s: &String) -> (r: Vec<String>)
    ensures
        strs_view(r@) == words_of(s@),
{
    let v = chars_of(s.as_str());
    let mut done: Vec<String> = Vec::new();
    let mut cur: Vec<char> = Vec::new();
    let mut i: usize = 0;
    while i < v.len()
        invariant
            i <= v@.len(),
            v@ == s@,
            (strs_view(done@), cur@) == words_state(v@.take(i as int)),
        decreases v@.len() - i,
    {
        let c = v[i];
        assert(v@.take(i + 1).drop_last() =~= v@.take(i as int));
        assert(v@.take(i + 1).last() == c);
        if c == ' ' || c == '\t' || c == '\n' || c == '\r' || c == '\u{0B}' || c == '\u{0C}' {
            if cur.len() > 0 {
                let w = string_of(&cur);
                proof {
                    assert(strs_view(done@.push(w)) =~= strs_view(done@).push(w@));
                }
                done.push(w);
                cur = Vec::new();
            } else {
                cur = Vec::new();
            }
            assert(cur@ =~= Seq::<char>::empty());
        } else {
            cur.push(c);
        }
        i = i + 1;
    }
    assert(v@.take(v@.len() as int) =~= v@);
    if cur.len() > 0 {
        let w = string_of(&cur);
        proof {
            assert(strs_view(done@.push(w)) =~= strs_view(done@).push(w@));
        }
        done.push(w);
    }
    done
}

/// The kind stored under `s`; an unknown name reads as a class.
pub open spec fn kind_from_name(s: Seq<char>) -> DeclarationKind {
    if s == "Interface"@ {
        DeclarationKind::Interface
    } else if s == "Enum"@ {
        DeclarationKind::Enum
    } else if s == "Record"@ {
        DeclarationKind::Record
    } else if s == "Annotation"@ {
        DeclarationKind::Annotation
    } else {
        DeclarationKind::Class
    }
}

fn parse_kind(s: &String) -> (r: DeclarationKind)
    ensures
        r == kind_from_name(s@),
{
    let v = chars_of(s.as_str());
    if crate::text::seq_eq(&v, &chars_of("Interface")) {
        DeclarationKind::Interface
    } else if crate::text::seq_eq(&v, &chars_of("Enum")) {
        DeclarationKind::Enum
    } else if crate::text::seq_eq(&v, &chars_of("Record")) {
        DeclarationKind::Record
    } else if crate::text::seq_eq(&v, &chars_of("Annotation")) {
        DeclarationKind::Annotation
    } else {
        DeclarationKind::Class
    }
}

/// A stored text read back: empty or absent means none.
pub open spec fn present(o: Option<Seq<char>>) -> Option<Seq<char>> {
    match o {
        Some(s) => if s.len() > 0 { Some(s) } else { None },
        None => None,
    }
}

fn present_text(o: &Option<String>) -> (r: Option<String>)
    ensures
        opt_view(r) == present(opt_view(*o)),
{
    match o {
        Some(s) => if s.as_str().is_empty() { None } else { Some(s.clone()) },
        None => None,
    }
}

fn annotations_named(names: &Vec<String>) -> (r: Vec<Annotation>)
    ensures
        annotation_names(r@) == strs_view(names@),
        forall|i: int| 0 <= i < r@.len() ==> (#[trigger] r@[i]).values@.len() == 0,
{
    let mut out: Vec<Annotation> = Vec::new();
    let mut i: usize = 0;
    while i < names.len()
        invariant
            i <= names@.len(),
            annotation_names(out@) == strs_view(names@).take(i as int),
            forall|k: int| 0 <= k < out@.len() ==> (#[trigger] out@[k]).values@.len() == 0,
        decreases names@.len() - i,
    {
        let a = Annotation { name: names[i].clone(), values: Vec::new() };
        proof {
            assert(strs_view(names@).take(i + 1) =~= strs_view(names@).take(i as int).push(names@[i as int]@));
            assert(annotation_names(out@.push(a)) =~= annotation_names(out@).push(a.name@));
        }
        out.push(a);
        i = i + 1;
    }
    assert(strs_view(names@).take(names@.len() as int) =~= strs_view(names@));
    out
}

/// `r` is the declaration that `doc` stands for, with the given fields and
/// methods.
pub open spec fn read_back(r: Declaration, doc: IndexDocument, fields: Seq<Field>, methods: Seq<Method>) -> bool {
    &&& r.name@ == doc.name@
    &&& r.fqn@ == fqn_of(doc.package@, doc.name@)
    &&& r.kind == kind_from_name(doc.kind@)
    &&& strs_view(r.modifiers@) == words_of(doc.modifiers@)
    &&& annotation_names(r.annotations@) == words_of(doc.annotations@)
    &&& forall|i: int| 0 <= i < r.annotations@.len() ==> (#[trigger] r.annotations@[i]).values@.len() == 0
    &&& r.signature@ == doc.signature@
    &&& opt_view(r.extends) == present(opt_view(doc.extends))
    &&& strs_view(r.implements@) == words_of(doc.implements@)
    &&& r.type_parameters@.len() == 0
    &&& fields_view(r.fields@) == fields_view(fields)
    &&& methods_view(r.methods@) == methods_view(methods)
    &&& r.nested@.len() == 0
    &&& r.range == doc@.range
    &&& opt_view(r.documentation) == present(opt_view(doc.documentation))
}

/// The declaration that a stored document stands for, with its decoded
/// fields and methods. Annotations come back by name only; nothing nested
/// is stored, so nothing nested comes back.
pub fn declaration_from_document(doc: &IndexDocument, fields: Vec<Field>, methods: Vec<Method>) -> (r: Declaration)
    ensures
        read_back(r, *doc, fields@, methods@),
{
    let names = split_words(&doc.annotations);
    Declaration {
        name: doc.name.clone(),
        fqn: crate::java::build_fqn(&doc.package, &doc.name),
        kind: parse_kind(&doc.kind),
        modifiers: split_words(&doc.modifiers),
        annotations: annotations_named(&names),
        signature: doc.signature.clone(),
        extends: present_text(&doc.extends),
        implements: split_words(&doc.implements),
        type_parameters: Vec::new(),
        fields,
        methods,
        nested: Vec::new(),
        range: SourceRange {
            start_line: doc.start_line,
            start_column: doc.start_column,
            end_line: doc.end_line,
            end_column: doc.end_column,
        },
        documentation: present_text(&doc.documentation),
    }
}

/// The search result of a stored document: the declaration it stands for,
/// relevance 1.0 (1000 thousandths) and the preview `name: signature`, which
/// is the result declaration's name and signature.
pub fn document_to_result(doc: &IndexDocument, fields: Vec<Field>, methods: Vec<Method>) -> (r: SearchResult)
    ensures
        read_back(r.declaration, *doc, fields@, methods@),
        r.file_path@ == doc.file_path@,
        r.score == 1000,
        r.preview@ == doc.name@ + ": "@ + doc.signature@,
        r.preview@ == r.declaration.name@ + ": "@ + r.declaration.signature@,
{
    let mut preview = doc.name.clone();
    preview.append(": ");
    preview.append(doc.signature.as_str());
    SearchResult {
        declaration: declaration_from_document(doc, fields, methods),
        file_path: doc.file_path.clone(),
        score: 1000,
        preview,
    }
}

// ---- round trip ----

/// A word as the document lists store it: non-empty, without whitespace.
pub open spec fn is_word(w: Seq<char>) -> bool {
    w.len() > 0 && forall|i: int| 0 <= i < w.len() ==> !is_space(#[trigger] w[i])
}

proof fn lemma_words_state_append_word(s: Seq<char>, t: Seq<char>)
    requires
        forall|i: int| 0 <= i < t.len() ==> !is_space(#[trigger] t[i]),
    ensures
        words_state(s + t) == (words_state(s).0, words_state(s).1 + t),
    decreases t.len(),
{
    if t.len() == 0 {
        assert(s + t =~= s);
        assert(words_state(s).1 + t =~= words_state(s).1);
    } else {
        let t0 = t.drop_last();
        assert forall|i: int| 0 <= i < t0.len() implies !is_space(#[trigger] t0[i]) by {
            assert(t0[i] == t[i]);
        }
        lemma_words_state_append_word(s, t0);
        assert((s + t).drop_last() =~= s + t0);
        assert((s + t).last() == t.last());
        assert(!is_space(t[t.len() - 1]));
        assert((words_state(s).1 + t0).push(t.last()) =~= words_state(s).1 + t);
    }
}

proof fn lemma_words_state_join(ws: Seq<Seq<char>>)
    requires
        ws.len() > 0,
        forall|i: int| 0 <= i < ws.len() ==> is_word(#[trigger] ws[i]),
    ensures
        words_state(join_seq(ws, " "@)) == (ws.drop_last(), ws.last()),
    decreases ws.len(),
{
    reveal_strlit(" ");
    let w = ws.last();
    assert(is_word(ws[ws.len() - 1]));
    if ws.len() == 1 {
        lemma_words_state_append_word(Seq::empty(), w);
        assert(Seq::<char>::empty() + w =~= w);
        assert(Seq::<char>::empty() + w =~= w);
        assert(ws.drop_last() =~= Seq::<Seq<char>>::empty());
    } else {
        let init = ws.drop_last();
        assert forall|i: int| 0 <= i < init.len() implies is_word(#[trigger] init[i]) by {
            assert(init[i] == ws[i]);
        }
        lemma_words_state_join(init);
        let j = join_seq(init, " "@);
        let js = j + " "@;
        assert(js.drop_last() =~= j);
        assert(js.last() == ' ');
        assert(is_word(init[init.len() - 1]));
        assert(init.drop_last().push(init.last()) =~= init);
        lemma_words_state_append_word(js, w);
        assert(Seq::<char>::empty() + w =~= w);
    }
}

/// Words joined by single spaces and split again at whitespace are the
/// same words.
pub proof fn lemma_words_round_trip(ws: Seq<Seq<char>>)
    requires
        forall|i: int| 0 <= i < ws.len() ==> is_word(#[trigger] ws[i]),
    ensures
        words_of(join_seq(ws, " "@)) == ws,
{
    if ws.len() == 0 {
        assert(words_state(Seq::<char>::empty()) == (Seq::<Seq<char>>::empty(), Seq::<char>::empty()));
    } else {
        lemma_words_state_join(ws);
        assert(is_word(ws[ws.len() - 1]));
        assert(ws.drop_last().push(ws.last()) =~= ws);
    }
}

proof fn lemma_kind_round_trip(k: DeclarationKind)
    ensures
        kind_from_name(kind_name(k)) == k,
{
    reveal_strlit("Class");
    reveal_strlit("Interface");
    reveal_strlit("Enum");
    reveal_strlit("Record");
    reveal_strlit("Annotation");
    assert("Class"@.len() == 5);
    assert("Interface"@.len() == 9);
    assert("Enum"@.len() == 4);
    assert("Record"@.len() == 6);
    assert("Annotation"@.len() == 10);
}

/// Indexing a declaration and reading its document back gives the same
/// name, kind, signature, modifiers, interfaces, superclass,
/// documentation, source range and annotation names, and the qualified
/// name in the document's package, as long as every listed word is a
/// non-empty run without whitespace and no present text is empty.
pub proof fn lemma_document_round_trip(
    d: Declaration,
    pkg: Seq<char>,
    path: Seq<char>,
    hash: Seq<char>,
    fields: Seq<char>,
    methods: Seq<char>,
)
    requires
        forall|i: int| 0 <= i < d.modifiers@.len() ==> is_word(#[trigger] d.modifiers@[i]@),
        forall|i: int| 0 <= i < d.implements@.len() ==> is_word(#[trigger] d.implements@[i]@),
        forall|i: int| 0 <= i < d.annotations@.len() ==> is_word(#[trigger] d.annotations@[i].name@),
        d.extends matches Some(e) ==> e@.len() > 0,
        d.documentation matches Some(s) ==> s@.len() > 0,
    ensures
        ({
            let doc = document_of(d, pkg, path, hash, fields, methods);
            &&& doc.name == d.name@
            &&& kind_from_name(doc.kind) == d.kind
            &&& doc.signature == d.signature@
            &&& words_of(doc.modifiers) == strs_view(d.modifiers@)
            &&& words_of(doc.implements) == strs_view(d.implements@)
            &&& words_of(doc.annotations) == annotation_names(d.annotations@)
            &&& present(doc.extends) == opt_view(d.extends)
            &&& present(doc.documentation) == opt_view(d.documentation)
            &&& doc.range == d.range
        }),
{
    lemma_kind_round_trip(d.kind);
    let ms = strs_view(d.modifiers@);
    assert forall|i: int| 0 <= i < ms.len() implies is_word(#[trigger] ms[i]) by {
        assert(ms[i] == d.modifiers@[i]@);
    }
    lemma_words_round_trip(ms);
    let is = strs_view(d.implements@);
    assert forall|i: int| 0 <= i < is.len() implies is_word(#[trigger] is[i]) by {
        assert(is[i] == d.implements@[i]@);
    }
    lemma_words_round_trip(is);
    let ns = annotation_names(d.annotations@);
    assert forall|i: int| 0 <= i < ns.len() implies is_word(#[trigger] ns[i]) by {
        assert(ns[i] == d.annotations@[i].name@);
    }
    lemma_words_round_trip(ns);
}

// ---- query plans ----

/// How a search is put to the index.
#[derive(Clone, Debug)]
pub enum QueryPlan {
    /// The text parsed by the index's query parser over these fields.
    Parsed { fields: Vec<IndexField>, text: String },
    /// Terms of `field` within `distance` edits of `term`.
    Fuzzy { field: IndexField, term: String, distance: u8, transpositions: bool },
}

/// The name given to the lower-case form of a text.
pub uninterp spec fn lower_of(s: Seq<char>) -> Seq<char>;

/// Relies on str::to_lowercase: the lower-case form of the text, as the
/// index's default tokenizer lower-cases indexed names.
#[verifier::external_body]
fn lowercase(s: &str) -> (r: String)
    ensures
        r@ == lower_of(s@),
{
    s.to_lowercase()
}

/// The plan of a search: exact searches parse the text over name,
/// signature and documentation; fuzzy ones take the names within two
/// edits of the lower-cased text (indexed names are lower-cased too),
/// transpositions counting as one; patterns parse the text over names.
pub fn build_query(query: &SearchQuery) -> (r: QueryPlan)
    ensures
        query.kind == SearchKind::Exact ==> (r matches QueryPlan::Parsed { fields, text } && text@ == query.query@
            && fields@ == seq![IndexField::Name, IndexField::Signature, IndexField::Documentation]),
        query.kind == SearchKind::Fuzzy ==> (r matches QueryPlan::Fuzzy { field, term, distance, transpositions }
            && field == IndexField::Name && term@ == lower_of(query.query@) && distance == 2 && transpositions),
        query.kind == SearchKind::Regex ==> (r matches QueryPlan::Parsed { fields, text } && text@ == query.query@
            && fields@ == seq![IndexField::Name]),
{
    match query.kind {
        SearchKind::Exact => QueryPlan::Parsed {
            fields: vec![IndexField::Name, IndexField::Signature, IndexField::Documentation],
            text: query.query.clone(),
        },
        SearchKind::Fuzzy => QueryPlan::Fuzzy {
            field: IndexField::Name,
            term: lowercase(query.query.as_str()),
            distance: 2,
            transpositions: true,
        },
        SearchKind::Regex => QueryPlan::Parsed { fields: vec![IndexField::Name], text: query.query.clone() },
    }
}

/// The number of results to ask the index for: the query's limit, or 100.
pub fn result_limit(query: &SearchQuery) -> (r: usize)
    ensures
        r == (match query.limit { Some(n) => n, None => 100 }),
{
    match query.limit {
        Some(n) => n,
        None => 100,
    }
}

} // verus!
