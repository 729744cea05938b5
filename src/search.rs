//! Search requests and results, the filters applied to results, and the
//! order in which each kind of search returns them.

use vstd::prelude::*;
use vstd::string::StringExecFns;
use crate::text::{chars_of, contains_seq, occurs_at};
use crate::types::{
    annots_view, fields_view, methods_view, opt_view, pairs_view, params_view, strs_view, Annotation,
    Declaration, DeclarationKind, Field, Method, Parameter,
};

verus! {

/// How the query text is matched.
#[derive(Clone, Copy, Debug, PartialEq, Eq, Structural)]
pub enum SearchKind {
    /// The query text parsed as a query over name, signature and documentation.
    Exact,
    /// Names within two edits of the query text.
    Fuzzy,
    /// The query text as a pattern over names.
    Regex,
}

/// A condition that every result must meet.
#[derive(Clone, Debug)]
pub enum SearchFilter {
    /// The declaration is of this kind.
    Kind(DeclarationKind),
    /// Some annotation's name contains this text.
    Annotation(String),
    /// The file path contains this text.
    Package(String),
    /// The file path contains this text.
    Module(String),
}

/// A search request.
#[derive(Clone, Debug)]
pub struct SearchQuery {
    pub query: String,
    pub kind: SearchKind,
    pub filters: Vec<SearchFilter>,
    pub limit: Option<usize>,
}

/// One hit: the declaration, its file, its relevance in thousandths, and a
/// one-line preview.
#[derive(Debug)]
pub struct SearchResult {
    pub declaration: Declaration,
    pub file_path: String,
    pub score: u32,
    pub preview: String,
}

impl SearchQuery {
    /// An exact search of the stored kind field for `kind`'s name
    /// (`kind:<Name>`), keeping only that kind.
    pub fn for_kind(kind: DeclarationKind, limit: Option<usize>) -> (r: SearchQuery)
        ensures
            r.query@ == "kind:"@ + kind_name(kind),
            r.kind == SearchKind::Exact,
            r.filters@.len() == 1,
            r.filters@[0] matches SearchFilter::Kind(k) && k == kind,
            r.limit == limit,
    {
        let mut query = "kind:".to_string();
        let name = kind_name_text(kind);
        query.append(name.as_str());
        SearchQuery { query, kind: SearchKind::Exact, filters: vec![SearchFilter::Kind(kind)], limit }
    }

    /// An exact search for an annotation name, keeping only declarations
    /// that carry a matching annotation.
    pub fn for_annotation(annotation: &str, limit: Option<usize>) -> (r: SearchQuery)
        ensures
            r.query@ == annotation@,
            r.kind == SearchKind::Exact,
            r.filters@.len() == 1,
            r.filters@[0] matches SearchFilter::Annotation(a) && a@ == annotation@,
            r.limit == limit,
    {
        SearchQuery {
            query: annotation.to_string(),
            kind: SearchKind::Exact,
            filters: vec![SearchFilter::Annotation(annotation.to_string())],
            limit,
        }
    }

    /// An exact search for a package name, keeping only files under it.
    pub fn for_package(package: &str, limit: Option<usize>) -> (r: SearchQuery)
        ensures
            r.query@ == package@,
            r.kind == SearchKind::Exact,
            r.filters@.len() == 1,
            r.filters@[0] matches SearchFilter::Package(p) && p@ == package@,
            r.limit == limit,
    {
        SearchQuery {
            query: package.to_string(),
            kind: SearchKind::Exact,
            filters: vec![SearchFilter::Package(package.to_string())],
            limit,
        }
    }

    /// A search of `kind` for `text`, with no filter.
    pub fn plain(text: &str, kind: SearchKind, limit: Option<usize>) -> (r: SearchQuery)
        ensures
            r.query@ == text@,
            r.kind == kind,
            r.filters@.len() == 0,
            r.limit == limit,
    {
        SearchQuery { query: text.to_string(), kind, filters: Vec::new(), limit }
    }
}

/// The name under which a kind is stored and searched.
pub open spec fn kind_name(k: DeclarationKind) -> Seq<char> {
    match k {
        DeclarationKind::Class => "Class"@,
        DeclarationKind::Interface => "Interface"@,
        DeclarationKind::Enum => "Enum"@,
        DeclarationKind::Record => "Record"@,
        DeclarationKind::Annotation => "Annotation"@,
    }
}

pub fn kind_name_text(k: DeclarationKind) -> (r: String)
    ensures
        r@ == kind_name(k),
{
    broadcast use vstd::string::group_string_axioms;
    match k {
        DeclarationKind::Class => "Class".to_string(),
        DeclarationKind::Interface => "Interface".to_string(),
        DeclarationKind::Enum => "Enum".to_string(),
        DeclarationKind::Record => "Record".to_string(),
        DeclarationKind::Annotation => "Annotation".to_string(),
    }
}

// ---- substring search ----

/// Whether `needle` occurs in `hay`.
pub fn contains_text(hay: &str, needle: &str) -> (r: bool)
    ensures
        r == contains_seq(hay@, needle@),
{
    let h = chars_of(hay);
    let n = chars_of(needle);
    if n.len() > h.len() {
        proof {
            assert forall|i: int| !occurs_at(h@, n@, i) by {}
        }
        return false;
    }
    let last = h.len() - n.len();
    let mut i: usize = 0;
    while i <= last
        invariant
            h@ == hay@,
            n@ == needle@,
            n@.len() <= h@.len(),
            last == h@.len() - n@.len(),
            forall|j: int| 0 <= j < i ==> !occurs_at(h@, n@, j),
        decreases last + 1 - i,
    {
        let mut k: usize = 0;
        let mut same = true;
        assert(h@.subrange(i as int, i as int) =~= n@.subrange(0, 0));
        while k < n.len() && same
            invariant
                i <= last,
                i + n.len() <= h.len(),
                h.len() == h@.len(),
                n.len() == n@.len(),
                last == h@.len() - n@.len(),
                k <= n@.len(),
                same == (h@.subrange(i as int, i + k) == n@.subrange(0, k as int)),
            decreases n@.len() - k,
        {
            if h[i + k] != n[k] {
                same = false;
                assert(h@.subrange(i as int, i + k + 1)[k as int] != n@.subrange(0, k + 1)[k as int]);
            } else {
                assert(h@.subrange(i as int, i + k + 1) =~= h@.subrange(i as int, i + k).push(h@[i + k]));
                assert(n@.subrange(0, k + 1) =~= n@.subrange(0, k as int).push(n@[k as int]));
            }
            k = k + 1;
        }
        if same {
            assert(n@.subrange(0, n@.len() as int) =~= n@);
            assert(occurs_at(h@, n@, i as int));
            return true;
        }
        proof {
            if occurs_at(h@, n@, i as int) {
                let a = h@.subrange(i as int, i + n@.len());
                assert(a.subrange(0, k as int) =~= h@.subrange(i as int, i + k));
                assert(n@.subrange(0, k as int) == a.subrange(0, k as int));
            }
        }
        if i == last {
            proof {
                assert forall|j: int| !occurs_at(h@, n@, j) by {
                    if 0 <= j <= i {
                    }
                }
            }
            return false;
        }
        i = i + 1;
    }
    false
}

// ---- filters ----

/// Some annotation's name contains `text`.
pub open spec fn has_annotation_like(anns: Seq<Annotation>, text: Seq<char>) -> bool {
    exists|i: int| 0 <= i < anns.len() && contains_seq((#[trigger] anns[i]).name@, text)
}

/// Whether a result meets a filter.
pub open spec fn passes(r: SearchResult, f: SearchFilter) -> bool {
    match f {
        SearchFilter::Kind(k) => r.declaration.kind == k,
        SearchFilter::Annotation(a) => has_annotation_like(r.declaration.annotations@, a@),
        SearchFilter::Package(p) => contains_seq(r.file_path@, p@),
        SearchFilter::Module(m) => contains_seq(r.file_path@, m@),
    }
}

/// Whether a result meets every filter.
pub open spec fn passes_all(r: SearchResult, fs: Seq<SearchFilter>) -> bool {
    forall|i: int| 0 <= i < fs.len() ==> passes(r, #[trigger] fs[i])
}

fn annotated_like(anns: &Vec<Annotation>, a: &String) -> (b: bool)
    ensures
        b == has_annotation_like(anns@, a@),
{
    let mut i: usize = 0;
    while i < anns.len()
        invariant
            i <= anns@.len(),
            forall|j: int| 0 <= j < i ==> !contains_seq((#[trigger] anns@[j]).name@, a@),
        decreases anns@.len() - i,
    {
        if contains_text(anns[i].name.as_str(), a.as_str()) {
            assert(0 <= i < anns@.len() && contains_seq(anns@[i as int].name@, a@));
            return true;
        }
        i = i + 1;
    }
    false
}

pub fn meets(r: &SearchResult, f: &SearchFilter) -> (b: bool)
    ensures
        b == passes(*r, *f),
{
    match f {
        SearchFilter::Kind(k) => r.declaration.kind == *k,
        SearchFilter::Annotation(a) => annotated_like(&r.declaration.annotations, a),
        SearchFilter::Package(p) => contains_text(r.file_path.as_str(), p.as_str()),
        SearchFilter::Module(m) => contains_text(r.file_path.as_str(), m.as_str()),
    }
}

pub fn meets_all(r: &SearchResult, fs: &Vec<SearchFilter>) -> (b: bool)
    ensures
        b == passes_all(*r, fs@),
{
    let mut i: usize = 0;
    while i < fs.len()
        invariant
            i <= fs@.len(),
            forall|j: int| 0 <= j < i ==> passes(*r, #[trigger] fs@[j]),
        decreases fs@.len() - i,
    {
        if !meets(r, &fs[i]) {
            return false;
        }
        i = i + 1;
    }
    true
}

/// The results among the first `n` that meet every filter, in order.
pub open spec fn kept_upto(rs: Seq<SearchResult>, fs: Seq<SearchFilter>, n: int) -> Seq<SearchResult>
    decreases n,
{
    if n <= 0 {
        Seq::empty()
    } else if passes_all(rs[n - 1], fs) {
        kept_upto(rs, fs, n - 1).push(rs[n - 1])
    } else {
        kept_upto(rs, fs, n - 1)
    }
}

/// Keeps the results that meet every filter, in their order. Applying the
/// filters one after another keeps exactly these.
pub fn apply_filters(results: Vec<SearchResult>, filters: &Vec<SearchFilter>) -> (r: Vec<SearchResult>)
    ensures
        r@ == kept_upto(results@, filters@, results@.len() as int),
{
    let ghost all = results@;
    let total = results.len();
    let mut rest = results;
    let mut out: Vec<SearchResult> = Vec::new();
    let mut i: usize = 0;
    assert(total == all.len());
    assert(out@ =~= all.subrange(0, 0));
    while rest.len() > 0
        invariant
            all.len() <= usize::MAX,
            i + rest@.len() == all.len(),
            rest@ == all.subrange(i as int, all.len() as int),
            out@ == kept_upto(all, filters@, i as int),
        decreases rest@.len(),
    {
        let r = rest.remove(0);
        assert(r == all[i as int]);
        if meets_all(&r, filters) {
            out.push(r);
        }
        assert(rest@ =~= all.subrange(i + 1, all.len() as int));
        i = i + 1;
    }
    out
}

// ---- order ----

/// Lexicographic order on character sequences.
pub open spec fn lex_le(a: Seq<char>, b: Seq<char>) -> bool
    decreases a.len(),
{
    if a.len() == 0 {
        true
    } else if b.len() == 0 {
        false
    } else if a[0] != b[0] {
        a[0] < b[0]
    } else {
        lex_le(a.drop_first(), b.drop_first())
    }
}

pub(crate) proof fn lemma_lex_total(a: Seq<char>, b: Seq<char>)
    ensures
        lex_le(a, b) || lex_le(b, a),
    decreases a.len(),
{
    if a.len() > 0 && b.len() > 0 && a[0] == b[0] {
        lemma_lex_total(a.drop_first(), b.drop_first());
    }
}

pub(crate) proof fn lemma_lex_trans(a: Seq<char>, b: Seq<char>, c: Seq<char>)
    requires
        lex_le(a, b),
        lex_le(b, c),
    ensures
        lex_le(a, c),
    decreases a.len(),
{
    if a.len() > 0 && b.len() > 0 && c.len() > 0 && a[0] == b[0] && b[0] == c[0] {
        lemma_lex_trans(a.drop_first(), b.drop_first(), c.drop_first());
    }
}

pub(crate) fn lex_le_exec(a: &String, b: &String) -> (r: bool)
    ensures
        r == lex_le(a@, b@),
{
    let x = chars_of(a.as_str());
    let y = chars_of(b.as_str());
    let mut i: usize = 0;
    assert(x@.subrange(0, x@.len() as int) =~= x@);
    assert(y@.subrange(0, y@.len() as int) =~= y@);
    while i < x.len() && i < y.len() && x[i] == y[i]
        invariant
            i <= x@.len(),
            i <= y@.len(),
            lex_le(x@, y@) == lex_le(x@.subrange(i as int, x@.len() as int), y@.subrange(i as int, y@.len() as int)),
        decreases x@.len() - i,
    {
        let ghost xs = x@.subrange(i as int, x@.len() as int);
        let ghost ys = y@.subrange(i as int, y@.len() as int);
        assert(xs.drop_first() =~= x@.subrange(i + 1, x@.len() as int));
        assert(ys.drop_first() =~= y@.subrange(i + 1, y@.len() as int));
        i = i + 1;
    }
    if i == x.len() {
        true
    } else if i == y.len() {
        false
    } else {
        x[i] < y[i]
    }
}

/// Whether `a` may come before `b` in the results of a search of `kind`:
/// by descending score for fuzzy searches, by name for exact ones, by
/// file path for patterns.
pub open spec fn ranks_before(kind: SearchKind, a: SearchResult, b: SearchResult) -> bool {
    match kind {
        SearchKind::Fuzzy => a.score >= b.score,
        SearchKind::Exact => lex_le(a.declaration.name@, b.declaration.name@),
        SearchKind::Regex => lex_le(a.file_path@, b.file_path@),
    }
}

proof fn lemma_ranks_total(kind: SearchKind, a: SearchResult, b: SearchResult)
    ensures
        ranks_before(kind, a, b) || ranks_before(kind, b, a),
{
    match kind {
        SearchKind::Fuzzy => {},
        SearchKind::Exact => lemma_lex_total(a.declaration.name@, b.declaration.name@),
        SearchKind::Regex => lemma_lex_total(a.file_path@, b.file_path@),
    }
}

proof fn lemma_ranks_trans(kind: SearchKind, a: SearchResult, b: SearchResult, c: SearchResult)
    requires
        ranks_before(kind, a, b),
        ranks_before(kind, b, c),
    ensures
        ranks_before(kind, a, c),
{
    match kind {
        SearchKind::Fuzzy => {},
        SearchKind::Exact => lemma_lex_trans(a.declaration.name@, b.declaration.name@, c.declaration.name@),
        SearchKind::Regex => lemma_lex_trans(a.file_path@, b.file_path@, c.file_path@),
    }
}

fn ranks_before_exec(kind: SearchKind, a: &SearchResult, b: &SearchResult) -> (r: bool)
    ensures
        r == ranks_before(kind, *a, *b),
{
    match kind {
        SearchKind::Fuzzy => a.score >= b.score,
        SearchKind::Exact => lex_le_exec(&a.declaration.name, &b.declaration.name),
        SearchKind::Regex => lex_le_exec(&a.file_path, &b.file_path),
    }
}

/// Every result may come before every later one.
pub open spec fn ranked(kind: SearchKind, rs: Seq<SearchResult>) -> bool {
    forall|i: int, j: int| 0 <= i < j < rs.len() ==> ranks_before(kind, #[trigger] rs[i], #[trigger] rs[j])
}

/// Orders results for a search of `kind`; results that rank alike keep
/// their order.
pub fn sort_results(results: Vec<SearchResult>, kind: SearchKind) -> (r: Vec<SearchResult>)
    ensures
        ranked(kind, r@),
        r@.to_multiset() == results@.to_multiset(),
{
    let ghost all = results@;
    let total = results.len();
    let mut rest = results;
    let mut out: Vec<SearchResult> = Vec::new();
    let mut i: usize = 0;
    assert(total == all.len());
    assert(out@ =~= all.subrange(0, 0));
    while rest.len() > 0
        invariant
            all.len() <= usize::MAX,
            i + rest@.len() == all.len(),
            rest@ == all.subrange(i as int, all.len() as int),
            out@.to_multiset() == all.subrange(0, i as int).to_multiset(),
            ranked(kind, out@),
        decreases rest@.len(),
    {
        let x = rest.remove(0);
        assert(x == all[i as int]);
        let mut p: usize = 0;
        while p < out.len() && ranks_before_exec(kind, &out[p], &x)
            invariant
                p <= out@.len(),
                forall|q: int| 0 <= q < p ==> ranks_before(kind, #[trigger] out@[q], x),
            decreases out@.len() - p,
        {
            p = p + 1;
        }
        let ghost before = out@;
        proof {
            if p < before.len() {
                assert(!ranks_before(kind, before[p as int], x));
                lemma_ranks_total(kind, before[p as int], x);
            }
            assert forall|a: int, b: int| 0 <= a < b < before.len() + 1 implies ranks_before(kind, #[trigger] before.insert(p as int, x)[a], #[trigger] before.insert(p as int, x)[b]) by {
                let s = before.insert(p as int, x);
                if a < p && b < p {
                    assert(s[a] == before[a] && s[b] == before[b]);
                } else if a < p && b == p {
                    assert(s[a] == before[a]);
                } else if a < p && b > p {
                    assert(s[a] == before[a] && s[b] == before[b - 1]);
                    lemma_ranks_total(kind, before[p as int], x);
                    if a < b - 1 {
                    }
                    assert(ranks_before(kind, before[a], x));
                    assert(ranks_before(kind, x, before[p as int]));
                    if p < b - 1 {
                        assert(ranks_before(kind, before[p as int], before[b - 1]));
                        lemma_ranks_trans(kind, x, before[p as int], before[b - 1]);
                    }
                    lemma_ranks_trans(kind, before[a], x, before[b - 1]);
                } else if a == p {
                    assert(s[b] == before[b - 1]);
                    if p < b - 1 {
                        assert(ranks_before(kind, before[p as int], before[b - 1]));
                        lemma_ranks_trans(kind, x, before[p as int], before[b - 1]);
                    }
                } else {
                    assert(s[a] == before[a - 1] && s[b] == before[b - 1]);
                }
            }
        }
        out.insert(p, x);
        proof {
            assert(all.subrange(0, i + 1) =~= all.subrange(0, i as int).push(x));
            vstd::seq_lib::to_multiset_insert(before, p as int, x);
            vstd::seq_lib::to_multiset_build(all.subrange(0, i as int), x);
            assert(out@.to_multiset() == before.to_multiset().insert(x));
        }
        assert(rest@ =~= all.subrange(i + 1, all.len() as int));
        i = i + 1;
    }
    assert(all.subrange(0, all.len() as int) =~= all);
    out
}

// ---- copies ----

pub fn copy_pairs(v: &Vec<(String, String)>) -> (r: Vec<(String, String)>)
    ensures
        pairs_view(r@) == pairs_view(v@),
{
    let mut out: Vec<(String, String)> = Vec::new();
    let mut i: usize = 0;
    while i < v.len()
        invariant
            i <= v@.len(),
            pairs_view(out@) == pairs_view(v@).take(i as int),
        decreases v@.len() - i,
    {
        let p = (v[i].0.clone(), v[i].1.clone());
        proof {
            assert(pairs_view(v@).take(i + 1) =~= pairs_view(v@).take(i as int).push((v@[i as int].0@, v@[i as int].1@)));
            assert(pairs_view(out@.push(p)) =~= pairs_view(out@).push((p.0@, p.1@)));
        }
        out.push(p);
        i = i + 1;
    }
    assert(pairs_view(v@).take(v@.len() as int) =~= pairs_view(v@));
    out
}

pub fn copy_annotations(v: &Vec<Annotation>) -> (r: Vec<Annotation>)
    ensures
        annots_view(r@) == annots_view(v@),
{
    let mut out: Vec<Annotation> = Vec::new();
    let mut i: usize = 0;
    while i < v.len()
        invariant
            i <= v@.len(),
            annots_view(out@) == annots_view(v@).take(i as int),
        decreases v@.len() - i,
    {
        let a = Annotation { name: v[i].name.clone(), values: copy_pairs(&v[i].values) };
        proof {
            assert(annots_view(v@).take(i + 1) =~= annots_view(v@).take(i as int).push(v@[i as int]@));
            assert(annots_view(out@.push(a)) =~= annots_view(out@).push(a@));
        }
        out.push(a);
        i = i + 1;
    }
    assert(annots_view(v@).take(v@.len() as int) =~= annots_view(v@));
    out
}

pub fn copy_parameters(v: &Vec<Parameter>) -> (r: Vec<Parameter>)
    ensures
        params_view(r@) == params_view(v@),
{
    let mut out: Vec<Parameter> = Vec::new();
    let mut i: usize = 0;
    while i < v.len()
        invariant
            i <= v@.len(),
            params_view(out@) == params_view(v@).take(i as int),
        decreases v@.len() - i,
    {
        let p = Parameter {
            name: v[i].name.clone(),
            declared_type: v[i].declared_type.clone(),
            annotations: copy_annotations(&v[i].annotations),
        };
        proof {
            assert(params_view(v@).take(i + 1) =~= params_view(v@).take(i as int).push(v@[i as int]@));
            assert(params_view(out@.push(p)) =~= params_view(out@).push(p@));
        }
        out.push(p);
        i = i + 1;
    }
    assert(params_view(v@).take(v@.len() as int) =~= params_view(v@));
    out
}

fn copy_opt(o: &Option<String>) -> (r: Option<String>)
    ensures
        opt_view(r) == opt_view(*o),
{
    match o {
        Some(s) => Some(s.clone()),
        None => None,
    }
}

pub fn copy_fields(v: &Vec<Field>) -> (r: Vec<Field>)
    ensures
        fields_view(r@) == fields_view(v@),
{
    let mut out: Vec<Field> = Vec::new();
    let mut i: usize = 0;
    while i < v.len()
        invariant
            i <= v@.len(),
            fields_view(out@) == fields_view(v@).take(i as int),
        decreases v@.len() - i,
    {
        let f = &v[i];
        let c = Field {
            name: f.name.clone(),
            declared_type: f.declared_type.clone(),
            modifiers: crate::graph::copy_strings(&f.modifiers),
            annotations: copy_annotations(&f.annotations),
            documentation: copy_opt(&f.documentation),
        };
        proof {
            assert(fields_view(v@).take(i + 1) =~= fields_view(v@).take(i as int).push(v@[i as int]@));
            assert(fields_view(out@.push(c)) =~= fields_view(out@).push(c@));
        }
        out.push(c);
        i = i + 1;
    }
    assert(fields_view(v@).take(v@.len() as int) =~= fields_view(v@));
    out
}

pub fn copy_methods(v: &Vec<Method>) -> (r: Vec<Method>)
    ensures
        methods_view(r@) == methods_view(v@),
{
    let mut out: Vec<Method> = Vec::new();
    let mut i: usize = 0;
    while i < v.len()
        invariant
            i <= v@.len(),
            methods_view(out@) == methods_view(v@).take(i as int),
        decreases v@.len() - i,
    {
        let m = &v[i];
        let c = Method {
            name: m.name.clone(),
            return_type: m.return_type.clone(),
            parameters: copy_parameters(&m.parameters),
            modifiers: crate::graph::copy_strings(&m.modifiers),
            annotations: copy_annotations(&m.annotations),
            type_parameters: crate::graph::copy_strings(&m.type_parameters),
            throws: crate::graph::copy_strings(&m.throws),
            range: m.range,
            body_range: m.body_range,
            documentation: copy_opt(&m.documentation),
        };
        proof {
            assert(methods_view(v@).take(i + 1) =~= methods_view(v@).take(i as int).push(v@[i as int]@));
            assert(methods_view(out@.push(c)) =~= methods_view(out@).push(c@));
        }
        out.push(c);
        i = i + 1;
    }
    assert(methods_view(v@).take(v@.len() as int) =~= methods_view(v@));
    out
}

/// A copy of a declaration's own parts, without what is nested in it.
pub fn copy_declaration(d: &Declaration) -> (r: Declaration)
    ensures
        r@ == d@,
        r.nested@.len() == 0,
{
    Declaration {
        name: d.name.clone(),
        fqn: d.fqn.clone(),
        kind: d.kind,
        modifiers: crate::graph::copy_strings(&d.modifiers),
        annotations: copy_annotations(&d.annotations),
        signature: d.signature.clone(),
        extends: copy_opt(&d.extends),
        implements: crate::graph::copy_strings(&d.implements),
        type_parameters: crate::graph::copy_strings(&d.type_parameters),
        fields: copy_fields(&d.fields),
        methods: copy_methods(&d.methods),
        nested: Vec::new(),
        range: d.range,
        documentation: copy_opt(&d.documentation),
    }
}

/// A result with the same declaration parts, file, score and preview.
pub open spec fn same_result(a: SearchResult, b: SearchResult) -> bool {
    &&& a.declaration@ == b.declaration@
    &&& a.file_path@ == b.file_path@
    &&& a.score == b.score
    &&& a.preview@ == b.preview@
}

pub fn copy_result(r: &SearchResult) -> (c: SearchResult)
    ensures
        same_result(c, *r),
        c.declaration.nested@.len() == 0,
{
    SearchResult {
        declaration: copy_declaration(&r.declaration),
        file_path: r.file_path.clone(),
        score: r.score,
        preview: r.preview.clone(),
    }
}

} // verus!
