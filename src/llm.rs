//! Export records for LLM and retrieval pipelines: which declarations a
//! request selects, the record of each, its source excerpt, and the
//! Markdown rendering of a batch.

use vstd::prelude::*;
use crate::search::{SearchFilter, SearchKind, SearchQuery};
use crate::text::{chars_of, lines_of, split_lines, string_of};
use crate::types::{opt_view, strs_view, Declaration, DeclarationKind, SourceRange};
use vstd::string::StringExecFns;

verus! {

broadcast use vstd::string::group_string_axioms;

/// The output formats of an export.
#[derive(Clone, Copy, Debug, PartialEq, Eq, Structural)]
pub enum ExportFormat {
    Json,
    Jsonl,
    Markdown,
    LlamaIndex,
    Rag,
}

/// What to export: optional query text, kind, annotations and package,
/// a limit, and whether to include source code.
#[derive(Clone, Debug)]
pub struct LlmRequest {
    pub query: Option<String>,
    pub kind: Option<DeclarationKind>,
    pub annotations: Vec<String>,
    pub package: Option<String>,
    pub limit: Option<usize>,
    pub include_source: bool,
    pub format: ExportFormat,
}

/// One exported declaration.
#[derive(Debug)]
pub struct LlmExport {
    pub name: String,
    pub kind: String,
    pub signature: String,
    pub documentation: Option<String>,
    pub code: String,
    pub file_path: String,
    pub line_range: (usize, usize),
}

/// The filters of a request: its kind, then one per annotation, then its
/// package.
pub open spec fn request_filters(r: LlmRequest) -> Seq<SearchFilter> {
    (match r.kind { Some(k) => seq![SearchFilter::Kind(k)], None => Seq::empty() })
        + r.annotations@.map_values(|a: String| SearchFilter::Annotation(a))
        + (match r.package { Some(p) => seq![SearchFilter::Package(p)], None => Seq::empty() })
}

impl LlmRequest {
    /// The filters that select what the request exports.
    pub fn build_filters(&self) -> (r: Vec<SearchFilter>)
        ensures
            r@.len() == request_filters(*self).len(),
            forall|i: int| 0 <= i < r@.len() ==> filter_matches(#[trigger] r@[i], request_filters(*self)[i]),
    {
        let ghost want = request_filters(*self);
        let mut out: Vec<SearchFilter> = Vec::new();
        if let Some(k) = self.kind {
            out.push(SearchFilter::Kind(k));
        }
        let ghost head = out@.len();
        let mut i: usize = 0;
        while i < self.annotations.len()
            invariant
                want == request_filters(*self),
                head == (if self.kind is Some { 1int } else { 0int }),
                i <= self.annotations@.len(),
                out@.len() == head + i,
                forall|j: int| 0 <= j < out@.len() ==> filter_matches(#[trigger] out@[j], want[j]),
            decreases self.annotations@.len() - i,
        {
            out.push(SearchFilter::Annotation(self.annotations[i].clone()));
            proof {
                assert(want[head + i] == SearchFilter::Annotation(self.annotations@[i as int]));
            }
            i = i + 1;
        }
        if let Some(p) = &self.package {
            out.push(SearchFilter::Package(p.clone()));
        }
        out
    }

    /// The exact search that the request runs.
    pub fn to_query(&self) -> (r: SearchQuery)
        ensures
            r.query@ == (match self.query { Some(q) => q@, None => Seq::empty() }),
            r.kind == SearchKind::Exact,
            r.filters@.len() == request_filters(*self).len(),
            r.limit == self.limit,
    {
        let query = match &self.query {
            Some(q) => q.clone(),
            None => String::new(),
        };
        SearchQuery { query, kind: SearchKind::Exact, filters: self.build_filters(), limit: self.limit }
    }

    fn with(kind: DeclarationKind, first: &str, second: &str, limit: Option<usize>) -> (r: LlmRequest)
        ensures
            r.query is None,
            r.kind == Some(kind),
            strs_view(r.annotations@) == seq![first@, second@],
            r.package is None,
            r.limit == limit,
            r.include_source,
            r.format == ExportFormat::Json,
    {
        let annotations = vec![first.to_string(), second.to_string()];
        assert(strs_view(annotations@) =~= seq![first@, second@]);
        LlmRequest { query: None, kind: Some(kind), annotations, package: None, limit, include_source: true, format: ExportFormat::Json }
    }

    /// Classes annotated `Service` and `Component`, with source.
    pub fn service_classes(limit: Option<usize>) -> (r: LlmRequest)
        ensures
            r.kind == Some(DeclarationKind::Class),
            strs_view(r.annotations@) == seq!["Service"@, "Component"@],
            r.query is None && r.package is None && r.limit == limit && r.include_source,
    {
        LlmRequest::with(DeclarationKind::Class, "Service", "Component", limit)
    }

    /// Classes annotated `Controller` and `RestController`, with source.
    pub fn controllers(limit: Option<usize>) -> (r: LlmRequest)
        ensures
            r.kind == Some(DeclarationKind::Class),
            strs_view(r.annotations@) == seq!["Controller"@, "RestController"@],
            r.query is None && r.package is None && r.limit == limit && r.include_source,
    {
        LlmRequest::with(DeclarationKind::Class, "Controller", "RestController", limit)
    }

    /// Every interface, with source.
    pub fn interfaces(limit: Option<usize>) -> (r: LlmRequest)
        ensures
            r.kind == Some(DeclarationKind::Interface),
            r.annotations@.len() == 0,
            r.query is None && r.package is None && r.limit == limit && r.include_source,
    {
        LlmRequest {
            query: None,
            kind: Some(DeclarationKind::Interface),
            annotations: Vec::new(),
            package: None,
            limit,
            include_source: true,
            format: ExportFormat::Json,
        }
    }
}

/// Two filters that select the same.
pub open spec fn filter_matches(a: SearchFilter, b: SearchFilter) -> bool {
    match (a, b) {
        (SearchFilter::Kind(x), SearchFilter::Kind(y)) => x == y,
        (SearchFilter::Annotation(x), SearchFilter::Annotation(y)) => x@ == y@,
        (SearchFilter::Package(x), SearchFilter::Package(y)) => x@ == y@,
        (SearchFilter::Module(x), SearchFilter::Module(y)) => x@ == y@,
        _ => false,
    }
}

// ---- source excerpts ----

/// A line without the carriage return that may end it.
pub open spec fn without_cr(l: Seq<char>) -> Seq<char> {
    if l.len() > 0 && l.last() == '\r' { l.drop_last() } else { l }
}

/// The lines of a text: split at line feeds, a last empty piece dropped,
/// and a carriage return before each line feed dropped.
pub open spec fn text_lines(s: Seq<char>) -> Seq<Seq<char>> {
    let ps = lines_of(s);
    let ps2 = if ps.last().len() == 0 { ps.drop_last() } else { ps };
    ps2.map_values(|l: Seq<char>| without_cr(l))
}

/// Lines `from` (inclusive) to `to` (exclusive) of `ls`, joined by line
/// feeds.
pub open spec fn joined_lines(ls: Seq<Seq<char>>, from: int, to: int) -> Seq<char>
    decreases to - from,
{
    if to <= from {
        Seq::empty()
    } else if to == from + 1 {
        ls[from]
    } else {
        joined_lines(ls, from, to - 1) + "\n"@ + ls[to - 1]
    }
}

/// The source of a range: its lines, from the first (1-based) to the last,
/// the last cut at the text's end; empty when the range starts after it.
pub open spec fn excerpt_of(s: Seq<char>, range: SourceRange) -> Seq<char> {
    let ls = text_lines(s);
    let from = if range.start_line >= 1 { range.start_line - 1 } else { 0 };
    let to = if range.end_line <= ls.len() { range.end_line as int } else { ls.len() as int };
    joined_lines(ls, from, to)
}

fn strip_cr(l: &Vec<char>) -> (r: Vec<char>)
    ensures
        r@ == without_cr(l@),
{
    let mut r: Vec<char> = Vec::new();
    let n = if l.len() > 0 && l[l.len() - 1] == '\r' { l.len() - 1 } else { l.len() };
    let mut i: usize = 0;
    while i < n
        invariant
            n <= l@.len(),
            i <= n,
            r@ == l@.subrange(0, i as int),
        decreases n - i,
    {
        r.push(l[i]);
        assert(l@.subrange(0, i + 1) =~= l@.subrange(0, i as int).push(l@[i as int]));
        i = i + 1;
    }
    assert(l@.subrange(0, l@.len() - 1) =~= l@.drop_last());
    assert(l@.subrange(0, l@.len() as int) =~= l@);
    r
}

/// The lines of `content` in `range`, joined by line feeds.
pub fn source_excerpt(content: &str, range: &SourceRange) -> (r: String)
    ensures
        r@ == excerpt_of(content@, *range),
{
    let all = chars_of(content);
    let pieces = split_lines(&all);
    let ghost ps = pieces@.map_values(|l: Vec<char>| l@);
    proof {
        crate::text::lemma_split_nonempty(all@, all@.len() as int);
    }
    let count = if pieces[pieces.len() - 1].len() == 0 { pieces.len() - 1 } else { pieces.len() };
    let ghost ls = text_lines(content@);
    assert(ls.len() == count);
    let from = if range.start_line >= 1 { range.start_line - 1 } else { 0 };
    let to = if range.end_line <= count { range.end_line } else { count };
    let mut out = String::new();
    let mut i: usize = from;
    while i < to
        invariant
            from <= i <= to || (to <= from && i == from),
            to <= count,
            count <= pieces@.len(),
            ls == text_lines(content@),
            ps == pieces@.map_values(|l: Vec<char>| l@),
            ps == lines_of(content@),
            count == ls.len(),
            out@ == joined_lines(ls, from as int, i as int),
        decreases to - i,
    {
        if i > from {
            out.append("\n");
        }
        let line = strip_cr(&pieces[i]);
        let text = string_of(&line);
        out.append(text.as_str());
        proof {
            assert(ls[i as int] == without_cr(ps[i as int]));
            if i > from {
                assert(out@ =~= joined_lines(ls, from as int, i as int) + "\n"@ + ls[i as int]);
            } else {
                assert(out@ =~= ls[i as int]);
            }
        }
        i = i + 1;
    }
    out
}

// ---- export records ----

/// The lower-case name of a kind.
pub open spec fn kind_label(k: DeclarationKind) -> Seq<char> {
    match k {
        DeclarationKind::Class => "class"@,
        DeclarationKind::Interface => "interface"@,
        DeclarationKind::Enum => "enum"@,
        DeclarationKind::Record => "record"@,
        DeclarationKind::Annotation => "annotation"@,
    }
}

fn kind_label_text(k: DeclarationKind) -> (r: String)
    ensures
        r@ == kind_label(k),
{
    match k {
        DeclarationKind::Class => "class".to_string(),
        DeclarationKind::Interface => "interface".to_string(),
        DeclarationKind::Enum => "enum".to_string(),
        DeclarationKind::Record => "record".to_string(),
        DeclarationKind::Annotation => "annotation".to_string(),
    }
}

/// The export record of a declaration found at `relative_path`; its code
/// is `code` when source is included, else the signature.
pub fn create_export(d: &Declaration, relative_path: &String, code: Option<String>) -> (r: LlmExport)
    ensures
        r.name@ == d.name@,
        r.kind@ == kind_label(d.kind),
        r.signature@ == d.signature@,
        opt_view(r.documentation) == opt_view(d.documentation),
        r.code@ == (match code { Some(c) => c@, None => d.signature@ }),
        r.file_path@ == relative_path@,
        r.line_range == (d.range.start_line, d.range.end_line),
{
    LlmExport {
        name: d.name.clone(),
        kind: kind_label_text(d.kind),
        signature: d.signature.clone(),
        documentation: match &d.documentation {
            Some(s) => Some(s.clone()),
            None => None,
        },
        code: match code {
            Some(c) => c,
            None => d.signature.clone(),
        },
        file_path: relative_path.clone(),
        line_range: (d.range.start_line, d.range.end_line),
    }
}


// ---- retrieval chunks ----

/// The text of a retrieval chunk: the signature, a blank line, the code.
pub fn chunk_text(e: &LlmExport) -> (r: String)
    ensures
        r@ == e.signature@ + "\n\n"@ + e.code@,
{
    let mut r = e.signature.clone();
    r.append("\n\n");
    r.append(e.code.as_str());
    r
}

/// The id of a retrieval chunk: `path: name`.
pub fn chunk_id(e: &LlmExport) -> (r: String)
    ensures
        r@ == e.file_path@ + ": "@ + e.name@,
{
    let mut r = e.file_path.clone();
    r.append(": ");
    r.append(e.name.as_str());
    r
}

// ---- Markdown ----

/// The Markdown section of one export record.
pub open spec fn markdown_section(e: LlmExport) -> Seq<char> {
    section_head(e) + section_docs(e) + section_tail(e)
}

pub open spec fn section_head(e: LlmExport) -> Seq<char> {
    "## "@ + e.name@ + "\n\n"@
        + "**Type:** "@ + e.kind@ + "\n\n"@
        + "**File:** "@ + e.file_path@ + " (lines "@ + decimal(e.line_range.0 as nat) + "-"@
        + decimal(e.line_range.1 as nat) + ")\n\n"@
}

pub open spec fn section_docs(e: LlmExport) -> Seq<char> {
    match opt_view(e.documentation) {
        Some(doc) => "**Documentation:**\n```\n"@ + doc + "\n```\n\n"@,
        None => Seq::empty(),
    }
}

pub open spec fn section_tail(e: LlmExport) -> Seq<char> {
    "**Signature:**\n```java\n"@ + e.signature@ + "\n```\n\n"@
        + "**Code:**\n```java\n"@ + e.code@ + "\n```\n\n"@
        + "---\n\n"@
}

fn append_head(out: &mut String, e: &LlmExport)
    ensures
        final(out)@ == old(out)@ + section_head(*e),
{
    let ghost before = out@;
    out.append("## ");
    out.append(e.name.as_str());
    out.append("\n\n");
    out.append("**Type:** ");
    out.append(e.kind.as_str());
    out.append("\n\n");
    out.append("**File:** ");
    out.append(e.file_path.as_str());
    out.append(" (lines ");
    let a = decimal_text(e.line_range.0);
    out.append(a.as_str());
    out.append("-");
    let b = decimal_text(e.line_range.1);
    out.append(b.as_str());
    out.append(")\n\n");
    assert(out@ =~= before + section_head(*e));
}

fn append_docs(out: &mut String, e: &LlmExport)
    ensures
        final(out)@ == old(out)@ + section_docs(*e),
{
    let ghost before = out@;
    if let Some(doc) = &e.documentation {
        out.append("**Documentation:**\n```\n");
        out.append(doc.as_str());
        out.append("\n```\n\n");
        assert(out@ =~= before + section_docs(*e));
    } else {
        assert(out@ =~= before + section_docs(*e));
    }
}

fn append_tail(out: &mut String, e: &LlmExport)
    ensures
        final(out)@ == old(out)@ + section_tail(*e),
{
    let ghost before = out@;
    out.append("**Signature:**\n```java\n");
    out.append(e.signature.as_str());
    out.append("\n```\n\n");
    out.append("**Code:**\n```java\n");
    out.append(e.code.as_str());
    out.append("\n```\n\n");
    out.append("---\n\n");
    assert(out@ =~= before + section_tail(*e));
}

pub open spec fn markdown_sections(es: Seq<LlmExport>, n: int) -> Seq<char>
    decreases n,
{
    if n <= 0 { Seq::empty() } else { markdown_sections(es, n - 1) + markdown_section(es[n - 1]) }
}

/// The Markdown text of an export: a header with the total, the time of
/// export and the project root, then one section per record.
pub open spec fn markdown_of(es: Seq<LlmExport>, total: nat, exported_at: Seq<char>, root: Seq<char>) -> Seq<char> {
    "# Code Export\n\n"@ + "**Total declarations:** "@ + decimal(total) + "\n\n"@
        + "**Exported at:** "@ + exported_at + "\n\n"@
        + "**Project root:** "@ + root + "\n\n"@
        + markdown_sections(es, es.len() as int)
}

/// The decimal digits of `n`.
pub open spec fn decimal(n: nat) -> Seq<char>
    decreases n,
{
    if n < 10 {
        seq![digit_char(n)]
    } else {
        decimal(n / 10) + seq![digit_char(n % 10)]
    }
}

pub open spec fn digit_char(d: nat) -> char {
    if d == 0 { '0' } else if d == 1 { '1' } else if d == 2 { '2' } else if d == 3 { '3' } else if d == 4 { '4' }
    else if d == 5 { '5' } else if d == 6 { '6' } else if d == 7 { '7' } else if d == 8 { '8' } else { '9' }
}

fn digit(d: usize) -> (c: char)
    requires
        d < 10,
    ensures
        c == digit_char(d as nat),
{
    if d == 0 { '0' } else if d == 1 { '1' } else if d == 2 { '2' } else if d == 3 { '3' } else if d == 4 { '4' }
    else if d == 5 { '5' } else if d == 6 { '6' } else if d == 7 { '7' } else if d == 8 { '8' } else { '9' }
}

/// `n` written in decimal.
pub fn decimal_text(n: usize) -> (r: String)
    ensures
        r@ == decimal(n as nat),
    decreases n,
{
    if n < 10 {
        let mut r = String::new();
        crate::text::push_char(&mut r, digit(n));
        assert(r@ =~= seq![digit_char(n as nat)]);
        r
    } else {
        let mut r = decimal_text(n / 10);
        crate::text::push_char(&mut r, digit(n % 10));
        r
    }
}

/// Renders an export as Markdown.
pub fn format_markdown(exports: &Vec<LlmExport>, total: usize, exported_at: &String, project_root: &String) -> (r: String)
    ensures
        r@ == markdown_of(exports@, total as nat, exported_at@, project_root@),
{
    let mut out = "# Code Export\n\n".to_string();
    out.append("**Total declarations:** ");
    let t = decimal_text(total);
    out.append(t.as_str());
    out.append("\n\n");
    out.append("**Exported at:** ");
    out.append(exported_at.as_str());
    out.append("\n\n");
    out.append("**Project root:** ");
    out.append(project_root.as_str());
    out.append("\n\n");
    let ghost head = out@;
    let mut i: usize = 0;
    while i < exports.len()
        invariant
            i <= exports@.len(),
            out@ == head + markdown_sections(exports@, i as int),
        decreases exports@.len() - i,
    {
        let e = &exports[i];
        let ghost before = out@;
        append_head(&mut out, e);
        append_docs(&mut out, e);
        append_tail(&mut out, e);
        assert(out@ =~= before + markdown_section(*e));
        i = i + 1;
    }
    assert(out@ =~= markdown_of(exports@, total as nat, exported_at@, project_root@));
    out
}

} // verus!
