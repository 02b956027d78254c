//! Queries and snapshot readers. A searcher is bound to one published
//! generation: it owns a copy of that generation's committed documents, so
//! its results stay consistent even while a concurrent commit advances the
//! handle to the next generation (snapshot isolation).

use vstd::prelude::*;

use crate::handle::{docs_view, step_commit_published, HandleV, IndexHandle};
use crate::schema::{DocFieldV, Document, FieldValue, FieldValueV};

verus! {

/// Mathematical model of a query.
pub struct QueryV {
    pub field: Seq<char>,
    pub term: FieldValueV,
}

/// A structured query: matches documents carrying `term` in field `field`.
#[derive(Debug)]
pub struct Query {
    pub field: String,
    pub term: FieldValue,
}

impl View for Query {
    type V = QueryV;

    open spec fn view(&self) -> QueryV {
        QueryV { field: self.field@, term: self.term@ }
    }
}

impl Clone for Query {
    fn clone(&self) -> (r: Query)
        ensures
            r@ == self@,
    {
        Query { field: self.field.clone(), term: self.term.clone() }
    }
}

/// The document carries the queried term in the queried field.
pub open spec fn doc_matches(d: Seq<DocFieldV>, q: QueryV) -> bool {
    exists|i: int| 0 <= i < d.len() && d[i].name == q.field && d[i].value == q.term
}

/// The subsequence of `docs` that matches `q`, in document order.
pub open spec fn matching_docs(docs: Seq<Seq<DocFieldV>>, q: QueryV) -> Seq<Seq<DocFieldV>>
    decreases docs.len(),
{
    if docs.len() == 0 {
        Seq::empty()
    } else {
        let rest = matching_docs(docs.drop_last(), q);
        if doc_matches(docs.last(), q) {
            rest.push(docs.last())
        } else {
            rest
        }
    }
}

/// Whether one document matches a query.
pub fn document_matches(doc: &Document, query: &Query) -> (b: bool)
    ensures
        b == doc_matches(doc@, query@),
{
    let mut i: usize = 0;
    while i < doc.fields.len()
        invariant
            i <= doc.fields@.len(),
            forall|k: int|
                0 <= k < i ==> !((#[trigger] doc@[k]).name == query@.field && doc@[k].value
                    == query@.term),
        decreases doc.fields@.len() - i,
    {
        let f = &doc.fields[i];
        if f.name == query.field && f.value == query.term {
            proof {
                assert(doc@[i as int].name == query@.field && doc@[i as int].value == query@.term);
            }
            return true;
        }
        i += 1;
    }
    false
}

/// An ephemeral, per-query result set, produced from one generation's
/// snapshot and never mutated afterwards.
#[derive(Debug)]
pub struct SearchResults {
    pub generation: u64,
    pub docs: Vec<Document>,
}

impl SearchResults {
    pub fn num_hits(&self) -> (n: usize)
        ensures
            n == docs_view(self.docs@).len(),
    {
        self.docs.len()
    }
}

/// Mathematical model of a searcher.
pub struct SearcherV {
    pub generation: u64,
    pub docs: Seq<Seq<DocFieldV>>,
}

/// A reader bound to one published generation. It owns its snapshot of the
/// committed documents, so later commits on the handle cannot affect it.
#[derive(Debug)]
pub struct Searcher {
    pub generation: u64,
    pub docs: Vec<Document>,
}

impl View for Searcher {
    type V = SearcherV;

    open spec fn view(&self) -> SearcherV {
        SearcherV { generation: self.generation, docs: docs_view(self.docs@) }
    }
}

impl Searcher {
    /// Runs a query against this searcher's snapshot. The result depends on
    /// the snapshot alone, never on the handle's current state.
    pub fn search(&self, query: &Query) -> (r: SearchResults)
        ensures
            r.generation == self@.generation,
            docs_view(r.docs@) == matching_docs(self@.docs, query@),
    {
        let mut hits: Vec<Document> = Vec::new();
        let mut i: usize = 0;
        proof {
            assert(self@.docs.subrange(0, 0) =~= Seq::<Seq<DocFieldV>>::empty());
            assert(docs_view(hits@) =~= Seq::<Seq<DocFieldV>>::empty());
        }
        while i < self.docs.len()
            invariant
                i <= self.docs@.len(),
                self@.docs.len() == self.docs@.len(),
                docs_view(hits@) == matching_docs(self@.docs.subrange(0, i as int), query@),
            decreases self.docs@.len() - i,
        {
            let ghost pre_hits = docs_view(hits@);
            if document_matches(&self.docs[i], query) {
                let d = self.docs[i].clone();
                proof {
                    assert(d@ == self@.docs[i as int]);
                }
                hits.push(d);
                proof {
                    assert(docs_view(hits@) =~= pre_hits.push(self@.docs[i as int]));
                }
            }
            proof {
                let s = self@.docs;
                assert(s.subrange(0, i + 1).drop_last() =~= s.subrange(0, i as int));
                assert(s.subrange(0, i + 1).last() == s[i as int]);
            }
            i += 1;
        }
        proof {
            assert(self@.docs.subrange(0, self.docs@.len() as int) =~= self@.docs);
        }
        SearchResults { generation: self.generation, docs: hits }
    }
}

impl IndexHandle {
    /// Hands out a reader bound to the currently published generation:
    /// a snapshot of the committed documents, independent of any pending
    /// write or in-flight commit.
    pub fn searcher(&self) -> (s: Searcher)
        ensures
            s@.generation == self@.current_generation,
            s@.docs == self@.committed,
    {
        let docs = self.committed.clone();
        proof {
            assert forall|i: int| 0 <= i < docs@.len() implies docs@[i]@ == self.committed@[i]@
            by {
                assert(cloned::<Document>(self.committed@[i], docs@[i]));
            }
            assert(docs_view(docs@) =~= docs_view(self.committed@));
        }
        Searcher { generation: self.current_generation, docs }
    }
}

/// Snapshot isolation: a searcher obtained while generation `G = pre.current_generation`
/// was published keeps answering queries from exactly the documents of `G`,
/// even after a commit advances the handle to `G + 1`. No mix of pre- and
/// post-commit data is observable through it.
pub proof fn lemma_snapshot_isolation(s: SearcherV, pre: HandleV, post: HandleV, q: QueryV, now: u64)
    requires
        s.generation == pre.current_generation,
        s.docs == pre.committed,
        step_commit_published(pre, post, now),
    ensures
        matching_docs(s.docs, q) == matching_docs(pre.committed, q),
        post.current_generation == pre.current_generation + 1,
        s.generation < post.current_generation,
{
}

} // verus!
