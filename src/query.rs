//! The query layer: a result cache keyed by search kind and text, the
//! filters and order applied to every answer, and aggregate counts.

use vstd::prelude::*;
use crate::search::{
    apply_filters, copy_result, kept_upto, passes, passes_all, has_annotation_like, ranked, same_result,
    sort_results, SearchFilter, SearchKind, SearchQuery, SearchResult,
};
use crate::types::{Declaration, DeclarationKind, DeclarationView};

verus! {

/// Cached results for one search kind and query text.
pub struct CacheEntry {
    pub kind: SearchKind,
    pub query: String,
    pub results: Vec<SearchResult>,
}

/// Element-wise copies.
pub open spec fn same_results(a: Seq<SearchResult>, b: Seq<SearchResult>) -> bool {
    a.len() == b.len() && forall|i: int| 0 <= i < a.len() ==> same_result(#[trigger] a[i], b[i])
}

/// Where the entry for `kind` and `text` stands.
pub open spec fn entry_index(es: Seq<CacheEntry>, kind: SearchKind, text: Seq<char>) -> Option<int> {
    if exists|i: int| 0 <= i < es.len() && es[i].kind == kind && es[i].query@ == text {
        Some(choose|i: int| 0 <= i < es.len() && es[i].kind == kind && es[i].query@ == text)
    } else {
        None
    }
}

/// The filtered, ordered answers of searches, cached by search kind and
/// query text. The cache ignores filters and limits: filters are applied
/// again to a cached answer, and an answer cached under one limit is
/// served to a later call with another. It must be cleared whenever the
/// index changes.
pub struct QueryEngine {
    cache: Vec<CacheEntry>,
}

/// Counts over the whole index.
#[derive(Clone, Copy, Debug, PartialEq, Eq, Structural)]
pub struct QueryStatistics {
    pub total_declarations: usize,
    pub class_count: usize,
    pub interface_count: usize,
    pub enum_count: usize,
    pub record_count: usize,
    pub annotation_count: usize,
}

impl QueryEngine {
    pub closed spec fn entries(&self) -> Seq<CacheEntry> {
        self.cache@
    }

    /// At most one entry per kind and text.
    pub closed spec fn wf(&self) -> bool {
        forall|i: int, j: int| 0 <= i < self.cache@.len() && 0 <= j < self.cache@.len() && i != j ==>
            !(self.cache@[i].kind == self.cache@[j].kind && self.cache@[i].query@ == self.cache@[j].query@)
    }

    pub fn new() -> (r: QueryEngine)
        ensures
            r.wf(),
            r.entries().len() == 0,
    {
        QueryEngine { cache: Vec::new() }
    }

    fn position(&self, kind: SearchKind, text: &String) -> (r: Option<usize>)
        requires
            self.wf(),
        ensures
            r is Some <==> entry_index(self.entries(), kind, text@) is Some,
            r matches Some(i) ==> entry_index(self.entries(), kind, text@) == Some(i as int),
    {
        let ghost es = self.cache@;
        let t = crate::text::chars_of(text.as_str());
        let mut i: usize = 0;
        while i < self.cache.len()
            invariant
                es == self.cache@,
                self.wf(),
                t@ == text@,
                i <= es.len(),
                forall|j: int| 0 <= j < i ==> !(es[j].kind == kind && es[j].query@ == text@),
            decreases es.len() - i,
        {
            let q = crate::text::chars_of(self.cache[i].query.as_str());
            if self.cache[i].kind == kind && crate::text::seq_eq(&q, &t) {
                proof {
                    let j = choose|j: int| 0 <= j < es.len() && es[j].kind == kind && es[j].query@ == text@;
                    assert(0 <= j < es.len() && es[j].kind == kind && es[j].query@ == text@);
                    assert(j == i);
                }
                return Some(i);
            }
            i = i + 1;
        }
        None
    }

    /// A cached answer for the query's kind and text, with the query's
    /// filters applied to it again; `None` when nothing is cached.
    pub fn lookup(&self, query: &SearchQuery) -> (r: Option<Vec<SearchResult>>)
        requires
            self.wf(),
        ensures
            r is Some <==> entry_index(self.entries(), query.kind, query.query@) is Some,
            r matches Some(v) ==> same_results(v@, kept_upto(
                self.entries()[entry_index(self.entries(), query.kind, query.query@)->0].results@,
                query.filters@,
                self.entries()[entry_index(self.entries(), query.kind, query.query@)->0].results@.len() as int)),
    {
        match self.position(query.kind, &query.query) {
            Some(p) => {
                let cached = &self.cache[p].results;
                let ghost kept = kept_upto(cached@, query.filters@, cached@.len() as int);
                let mut out: Vec<SearchResult> = Vec::new();
                let mut i: usize = 0;
                while i < cached.len()
                    invariant
                        i <= cached@.len(),
                        same_results(out@, kept_upto(cached@, query.filters@, i as int)),
                    decreases cached@.len() - i,
                {
                    if crate::search::meets_all(&cached[i], &query.filters) {
                        let c = copy_result(&cached[i]);
                        let ghost prev = kept_upto(cached@, query.filters@, i as int);
                        out.push(c);
                        proof {
                            let now = kept_upto(cached@, query.filters@, i + 1);
                            assert(now == prev.push(cached@[i as int]));
                            assert forall|k: int| 0 <= k < out@.len() implies same_result(#[trigger] out@[k], now[k]) by {
                                if k < prev.len() {
                                    assert(now[k] == prev[k]);
                                }
                            }
                        }
                    }
                    i = i + 1;
                }
                Some(out)
            },
            None => None,
        }
    }

    /// Finishes a search that missed the cache: keeps the index's results
    /// that meet every filter, orders them for the kind of search, caches
    /// copies under the query's kind and text, and returns them.
    pub fn complete(&mut self, query: &SearchQuery, results: Vec<SearchResult>) -> (r: Vec<SearchResult>)
        requires
            old(self).wf(),
        ensures
            final(self).wf(),
            ranked(query.kind, r@),
            r@.to_multiset() == kept_upto(results@, query.filters@, results@.len() as int).to_multiset(),
            entry_index(final(self).entries(), query.kind, query.query@) matches Some(i)
                && same_results(final(self).entries()[i].results@, r@),
    {
        let kept = apply_filters(results, &query.filters);
        let sorted = sort_results(kept, query.kind);
        let mut copies: Vec<SearchResult> = Vec::new();
        let mut i: usize = 0;
        while i < sorted.len()
            invariant
                i <= sorted@.len(),
                copies@.len() == i,
                forall|k: int| 0 <= k < i ==> same_result(#[trigger] copies@[k], sorted@[k]),
            decreases sorted@.len() - i,
        {
            copies.push(copy_result(&sorted[i]));
            i = i + 1;
        }
        let entry = CacheEntry { kind: query.kind, query: query.query.clone(), results: copies };
        let ghost es = self.cache@;
        match self.position(query.kind, &query.query) {
            Some(p) => {
                self.cache.set(p, entry);
                proof {
                    assert(self.cache@ == es.update(p as int, entry));
                    assert forall|a: int, b: int| 0 <= a < self.cache@.len() && 0 <= b < self.cache@.len() && a != b implies
                        !(self.cache@[a].kind == self.cache@[b].kind && self.cache@[a].query@ == self.cache@[b].query@) by {
                        assert(!(es[a].kind == es[b].kind && es[a].query@ == es[b].query@));
                    }
                    self.lemma_entry_at(p as int, query.kind, query.query@);
                }
            },
            None => {
                self.cache.push(entry);
                proof {
                    assert(self.cache@ == es.push(entry));
                    assert forall|a: int, b: int| 0 <= a < self.cache@.len() && 0 <= b < self.cache@.len() && a != b implies
                        !(self.cache@[a].kind == self.cache@[b].kind && self.cache@[a].query@ == self.cache@[b].query@) by {
                        if a < es.len() && b < es.len() {
                            assert(!(es[a].kind == es[b].kind && es[a].query@ == es[b].query@));
                        } else if a < es.len() {
                            assert(!(es[a].kind == query.kind && es[a].query@ == query.query@));
                        } else {
                            assert(!(es[b].kind == query.kind && es[b].query@ == query.query@));
                        }
                    }
                    self.lemma_entry_at(es.len() as int, query.kind, query.query@);
                }
            },
        }
        sorted
    }

    proof fn lemma_entry_at(&self, p: int, kind: SearchKind, text: Seq<char>)
        requires
            self.wf(),
            0 <= p < self.cache@.len(),
            self.cache@[p].kind == kind,
            self.cache@[p].query@ == text,
        ensures
            entry_index(self.entries(), kind, text) == Some(p),
    {
        let es = self.cache@;
        assert(0 <= p < es.len() && es[p].kind == kind && es[p].query@ == text);
        let j = choose|j: int| 0 <= j < es.len() && es[j].kind == kind && es[j].query@ == text;
        assert(0 <= j < es.len() && es[j].kind == kind && es[j].query@ == text);
        assert(j == p);
    }

    /// Forgets every cached answer.
    pub fn clear_cache(&mut self)
        ensures
            final(self).wf(),
            final(self).entries().len() == 0,
    {
        self.cache = Vec::new();
    }

    /// The number of cached answers and of cached results in all (the
    /// second saturating at `usize::MAX`).
    pub fn get_cache_stats(&self) -> (r: (usize, usize))
        ensures
            r.0 == self.entries().len(),
            r.1 as int == crate::graph::min_usize(cached_total(self.entries(), self.entries().len() as int)),
    {
        let mut total: usize = 0;
        let mut i: usize = 0;
        while i < self.cache.len()
            invariant
                i <= self.cache@.len(),
                total as int == crate::graph::min_usize(cached_total(self.cache@, i as int)),
            decreases self.cache@.len() - i,
        {
            total = total.saturating_add(self.cache[i].results.len());
            i = i + 1;
        }
        (self.cache.len(), total)
    }
}

/// The number of results in the first `n` entries.
pub open spec fn cached_total(es: Seq<CacheEntry>, n: int) -> int
    decreases n,
{
    if n <= 0 { 0 } else { cached_total(es, n - 1) + es[n - 1].results@.len() }
}

proof fn lemma_kept_pass(rs: Seq<SearchResult>, fs: Seq<SearchFilter>, n: int)
    requires
        n <= rs.len(),
    ensures
        forall|i: int| 0 <= i < kept_upto(rs, fs, n).len() ==> passes_all(#[trigger] kept_upto(rs, fs, n)[i], fs),
    decreases n,
{
    if n > 0 {
        lemma_kept_pass(rs, fs, n - 1);
        let prev = kept_upto(rs, fs, n - 1);
        let cur = kept_upto(rs, fs, n);
        assert forall|i: int| 0 <= i < cur.len() implies passes_all(#[trigger] cur[i], fs) by {
            if i < prev.len() {
                assert(cur[i] == prev[i]);
            }
        }
    }
}

proof fn lemma_kept_complete(rs: Seq<SearchResult>, fs: Seq<SearchFilter>, n: int, j: int)
    requires
        0 <= j < n <= rs.len(),
        passes_all(rs[j], fs),
    ensures
        kept_upto(rs, fs, n).contains(rs[j]),
    decreases n,
{
    if j < n - 1 {
        lemma_kept_complete(rs, fs, n - 1, j);
        let prev = kept_upto(rs, fs, n - 1);
        let k = choose|k: int| 0 <= k < prev.len() && prev[k] == rs[j];
        assert(kept_upto(rs, fs, n)[k] == rs[j]);
    } else {
        let cur = kept_upto(rs, fs, n);
        assert(cur[cur.len() - 1] == rs[j]);
    }
}

/// Filtering by a kind and by an annotation together keeps exactly the
/// results of that kind that carry an annotation whose name contains the
/// given text.
pub proof fn lemma_kind_and_annotation_filters(rs: Seq<SearchResult>, kind: DeclarationKind, text: String)
    ensures
        ({
            let fs = seq![SearchFilter::Kind(kind), SearchFilter::Annotation(text)];
            let kept = kept_upto(rs, fs, rs.len() as int);
            &&& forall|i: int| 0 <= i < kept.len() ==> (#[trigger] kept[i]).declaration.kind == kind
                && has_annotation_like(kept[i].declaration.annotations@, text@)
            &&& forall|j: int| 0 <= j < rs.len() && (#[trigger] rs[j]).declaration.kind == kind
                && has_annotation_like(rs[j].declaration.annotations@, text@) ==> kept.contains(rs[j])
        }),
{
    let fs = seq![SearchFilter::Kind(kind), SearchFilter::Annotation(text)];
    let kept = kept_upto(rs, fs, rs.len() as int);
    lemma_kept_pass(rs, fs, rs.len() as int);
    assert forall|i: int| 0 <= i < kept.len() implies (#[trigger] kept[i]).declaration.kind == kind
        && has_annotation_like(kept[i].declaration.annotations@, text@) by {
        assert(passes_all(kept[i], fs));
        assert(passes(kept[i], fs[0]));
        assert(passes(kept[i], fs[1]));
    }
    assert forall|j: int| 0 <= j < rs.len() && (#[trigger] rs[j]).declaration.kind == kind
        && has_annotation_like(rs[j].declaration.annotations@, text@) implies kept.contains(rs[j]) by {
        assert forall|k: int| 0 <= k < fs.len() implies passes(rs[j], #[trigger] fs[k]) by {
            if k == 0 {
                assert(fs[0] == SearchFilter::Kind(kind));
            } else {
                assert(fs[1] == SearchFilter::Annotation(text));
            }
        }
        lemma_kept_complete(rs, fs, rs.len() as int, j);
    }
}

/// The views of a list of declarations.
pub open spec fn decl_views(ds: Seq<Declaration>) -> Seq<DeclarationView> {
    ds.map_values(|d: Declaration| d@)
}

/// Every declaration of `ds` and every one nested in it at any depth, in
/// pre-order: each declaration before the ones nested in it.
pub open spec fn preorder(ds: Seq<Declaration>) -> Seq<DeclarationView>
    decreases ds,
{
    if ds.len() == 0 {
        Seq::empty()
    } else {
        preorder(ds.drop_last()) + seq![ds.last()@] + preorder(ds.last().nested@)
    }
}

/// Moves every declaration, and every declaration nested in it at any
/// depth, into one list in pre-order, each without its nested ones.
pub fn flatten_declarations(decls: Vec<Declaration>) -> (r: Vec<Declaration>)
    ensures
        decl_views(r@) == preorder(decls@),
        forall|i: int| 0 <= i < r@.len() ==> (#[trigger] r@[i]).nested@.len() == 0,
{
    let mut out: Vec<Declaration> = Vec::new();
    let ghost all = decls@;
    let mut rest = decls;
    let ghost mut taken: int = 0;
    assert(decl_views(out@) =~= preorder(all.take(0)));
    while rest.len() > 0
        invariant
            0 <= taken,
            taken + rest@.len() == all.len(),
            rest@ == all.subrange(taken, all.len() as int),
            decl_views(out@) == preorder(all.take(taken)),
            forall|i: int| 0 <= i < out@.len() ==> (#[trigger] out@[i]).nested@.len() == 0,
        decreases rest@.len(),
    {
        let d = rest.remove(0);
        proof {
            assert(d == all[taken]);
            assert(all.take(taken + 1).drop_last() =~= all.take(taken));
            assert(all.take(taken + 1).last() == d);
        }
        flatten_into(d, &mut out);
        assert(rest@ =~= all.subrange(taken + 1, all.len() as int));
        proof {
            taken = taken + 1;
        }
    }
    assert(all.take(all.len() as int) =~= all);
    out
}

fn flatten_into(d: Declaration, out: &mut Vec<Declaration>)
    requires
        forall|i: int| 0 <= i < old(out)@.len() ==> (#[trigger] old(out)@[i]).nested@.len() == 0,
    ensures
        decl_views(final(out)@) == decl_views(old(out)@) + seq![d@] + preorder(d.nested@),
        forall|i: int| 0 <= i < final(out)@.len() ==> (#[trigger] final(out)@[i]).nested@.len() == 0,
    decreases d,
{
    let ghost dv = d@;
    let ghost start = decl_views(out@);
    let Declaration {
        name, fqn, kind, modifiers, annotations, signature, extends, implements, type_parameters, fields,
        methods, nested, range, documentation,
    } = d;
    let top = Declaration {
        name, fqn, kind, modifiers, annotations, signature, extends, implements, type_parameters, fields,
        methods, nested: Vec::new(), range, documentation,
    };
    assert(top@ == dv);
    out.push(top);
    let ghost inner = nested@;
    assert(decl_views(out@) =~= start + seq![dv] + preorder(inner.take(0)));
    let mut rest = nested;
    let ghost mut taken: int = 0;
    while rest.len() > 0
        invariant
            0 <= taken,
            taken + rest@.len() == inner.len(),
            rest@ == inner.subrange(taken, inner.len() as int),
            inner == d.nested@,
            decl_views(out@) == start + seq![dv] + preorder(inner.take(taken)),
            forall|i: int| 0 <= i < out@.len() ==> (#[trigger] out@[i]).nested@.len() == 0,
        decreases rest@.len(),
    {
        let child = rest.remove(0);
        proof {
            assert(child == inner[taken]);
            assert(decreases_to!(d => d.nested@[taken]));
            assert(inner.take(taken + 1).drop_last() =~= inner.take(taken));
            assert(inner.take(taken + 1).last() == child);
        }
        flatten_into(child, out);
        assert(rest@ =~= inner.subrange(taken + 1, inner.len() as int));
        proof {
            taken = taken + 1;
        }
    }
    assert(inner.take(inner.len() as int) =~= inner);
}

} // verus!
