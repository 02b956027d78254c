//! The index handle: the in-memory control object for one open index. It
//! owns the writer's pending buffer, the latest committed (readable)
//! generation, and the writer state machine that keeps at most one commit
//! in flight per index.
//!
//! Writer discipline: a write attempted while the handle is `Committing` is
//! rejected with `WriterBusy` (the rejecting policy; queueing is a caller
//! concern). An accepted document is buffered and counted but stays
//! invisible to readers until a commit publishes a new generation.

use vstd::prelude::*;

use crate::error::Error;
use crate::schema::{doc_conforms, DocFieldV, Document, Schema, SchemaFieldV};
use crate::settings::CommitPolicy;

verus! {

/// The writer state of one handle.
#[derive(Debug, Clone, Copy, PartialEq, Eq, Structural)]
pub enum WriterState {
    /// No write activity since the last publish.
    Idle,
    /// Documents have been buffered since the last publish.
    Writing,
    /// A commit cycle is in flight; further writes are rejected.
    Committing,
}

/// The views of a sequence of documents.
pub open spec fn docs_view(docs: Seq<Document>) -> Seq<Seq<DocFieldV>> {
    Seq::new(docs.len(), |i: int| docs[i]@)
}

/// Copies a vector of documents, preserving the views.
pub fn clone_documents(docs: &Vec<Document>) -> (r: Vec<Document>)
    ensures
        docs_view(r@) == docs_view(docs@),
{
    let r = docs.clone();
    proof {
        assert forall|i: int| 0 <= i < r@.len() implies r@[i]@ == docs@[i]@ by {
            assert(cloned::<Document>(docs@[i], r@[i]));
        }
        assert(docs_view(r@) =~= docs_view(docs@));
    }
    r
}

/// Mathematical model of an index handle.
#[verifier::ext_equal]
pub struct HandleV {
    pub name: Seq<char>,
    pub schema: Seq<SchemaFieldV>,
    pub policy: CommitPolicy,
    pub writer_state: WriterState,
    pub pending: Seq<Seq<DocFieldV>>,
    pub committed: Seq<Seq<DocFieldV>>,
    pub current_generation: u64,
    pub last_commit_time: u64,
}

impl HandleV {
    /// Internal invariant: the schema is well-formed and every buffered or
    /// committed document conforms to it.
    pub open spec fn wf(self) -> bool {
        &&& crate::schema::schema_wf(self.schema)
        &&& forall|i: int|
            0 <= i < self.pending.len() ==> doc_conforms(#[trigger] self.pending[i], self.schema)
        &&& forall|i: int|
            0 <= i < self.committed.len() ==> doc_conforms(
                #[trigger] self.committed[i],
                self.schema,
            )
    }
}

/// A freshly created or loaded handle: no pending writes, writer idle.
pub open spec fn fresh_handle(
    name: Seq<char>,
    schema: Seq<SchemaFieldV>,
    policy: CommitPolicy,
    committed: Seq<Seq<DocFieldV>>,
    generation: u64,
    now: u64,
) -> HandleV {
    HandleV {
        name,
        schema,
        policy,
        writer_state: WriterState::Idle,
        pending: Seq::empty(),
        committed,
        current_generation: generation,
        last_commit_time: now,
    }
}

/// An accepted ingestion: the document conforms, the writer was not
/// committing; the document is appended to the pending buffer and the
/// writer moves to `Writing`. Nothing becomes visible to readers.
pub open spec fn step_ingest(pre: HandleV, post: HandleV, doc: Seq<DocFieldV>) -> bool {
    &&& pre.writer_state != WriterState::Committing
    &&& doc_conforms(doc, pre.schema)
    &&& post == (HandleV { writer_state: WriterState::Writing, pending: pre.pending.push(doc), ..pre })
}

/// Entering a commit cycle: the writer moves to `Committing`; nothing else
/// changes yet.
pub open spec fn step_begin_commit(pre: HandleV, post: HandleV) -> bool {
    &&& pre.writer_state != WriterState::Committing
    &&& post == (HandleV { writer_state: WriterState::Committing, ..pre })
}

/// A successful publish: the whole pending buffer is appended to the
/// committed documents as one contiguous block, the generation advances by
/// exactly one, the pending buffer empties, and the writer returns to idle.
pub open spec fn step_commit_published(pre: HandleV, post: HandleV, now: u64) -> bool {
    &&& pre.current_generation < u64::MAX
    &&& post == (HandleV {
        writer_state: WriterState::Idle,
        pending: Seq::empty(),
        committed: pre.committed + pre.pending,
        current_generation: (pre.current_generation + 1) as u64,
        last_commit_time: now,
        ..pre
    })
}

/// A failed flush: pending buffer, committed documents, generation and
/// commit clock are all left untouched; only the writer returns to idle so
/// a later cycle can retry.
pub open spec fn step_commit_failed(pre: HandleV, post: HandleV) -> bool {
    post == (HandleV { writer_state: WriterState::Idle, ..pre })
}

/// The in-memory control object for one open index.
#[derive(Debug)]
pub struct IndexHandle {
    pub name: String,
    pub schema: Schema,
    pub policy: CommitPolicy,
    pub writer_state: WriterState,
    pub pending: Vec<Document>,
    pub committed: Vec<Document>,
    pub current_generation: u64,
    pub last_commit_time: u64,
}

impl View for IndexHandle {
    type V = HandleV;

    open spec fn view(&self) -> HandleV {
        HandleV {
            name: self.name@,
            schema: self.schema@,
            policy: self.policy,
            writer_state: self.writer_state,
            pending: docs_view(self.pending@),
            committed: docs_view(self.committed@),
            current_generation: self.current_generation,
            last_commit_time: self.last_commit_time,
        }
    }
}

impl IndexHandle {
    /// Opens a brand-new index at generation zero with no documents.
    pub fn new(name: String, schema: Schema, policy: CommitPolicy, now: u64) -> (h: IndexHandle)
        requires
            schema.wf(),
        ensures
            h@ == fresh_handle(name@, schema@, policy, Seq::empty(), 0, now),
            h@.wf(),
    {
        let h = IndexHandle {
            name,
            schema,
            policy,
            writer_state: WriterState::Idle,
            pending: Vec::new(),
            committed: Vec::new(),
            current_generation: 0,
            last_commit_time: now,
        };
        proof {
            assert(h@ =~= fresh_handle(h.name@, h.schema@, policy, Seq::empty(), 0, now));
        }
        h
    }

    /// Number of documents buffered since the last publish.
    pub fn pending_count(&self) -> (n: usize)
        ensures
            n == self@.pending.len(),
    {
        self.pending.len()
    }

    /// Validates a document against the handle's schema and, when the
    /// writer is free and the document conforms, appends it to the pending
    /// buffer. The call succeeding does not make the document readable;
    /// only a commit does. A write during an in-flight commit is rejected
    /// with `WriterBusy` and changes nothing.
    pub fn add_document(&mut self, doc: Document) -> (r: Result<(), Error>)
        requires
            old(self)@.wf(),
        ensures
            final(self)@.wf(),
            final(self)@.current_generation == old(self)@.current_generation,
            final(self)@.committed == old(self)@.committed,
            match r {
                Ok(()) => step_ingest(old(self)@, final(self)@, doc@),
                Err(e) => final(self)@ == old(self)@ && match e {
                    Error::WriterBusy => old(self)@.writer_state == WriterState::Committing,
                    Error::SchemaValidationError(f) => {
                        &&& old(self)@.writer_state != WriterState::Committing
                        &&& !doc_conforms(doc@, old(self)@.schema)
                        &&& exists|i: int|
                            0 <= i < doc@.len() && !crate::schema::field_conforms(
                                #[trigger] doc@[i],
                                old(self)@.schema,
                            ) && f@ == doc@[i].name
                    },
                    _ => false,
                },
            },
    {
        if self.writer_state == WriterState::Committing {
            return Err(Error::WriterBusy);
        }
        match crate::schema::validate_document(&self.schema, &doc) {
            Err(e) => Err(e),
            Ok(()) => {
                let ghost pre = self@;
                let ghost dv = doc@;
                self.pending.push(doc);
                self.writer_state = WriterState::Writing;
                proof {
                    assert(docs_view(self.pending@) =~= pre.pending.push(dv));
                    assert(self@ =~= (HandleV {
                        writer_state: WriterState::Writing,
                        pending: pre.pending.push(dv),
                        ..pre
                    }));
                }
                Ok(())
            },
        }
    }

    /// Step one of a commit cycle: moves the writer to `Committing` so no
    /// concurrent write or second commit can interleave. Skipped with
    /// `WriterBusy` when a cycle is already in flight.
    pub fn begin_commit(&mut self) -> (r: Result<(), Error>)
        requires
            old(self)@.wf(),
        ensures
            final(self)@.wf(),
            final(self)@.current_generation == old(self)@.current_generation,
            match r {
                Ok(()) => step_begin_commit(old(self)@, final(self)@),
                Err(e) => {
                    &&& e matches Error::WriterBusy
                    &&& old(self)@.writer_state == WriterState::Committing
                    &&& final(self)@ == old(self)@
                },
            },
    {
        if self.writer_state == WriterState::Committing {
            return Err(Error::WriterBusy);
        }
        let ghost pre = self@;
        self.writer_state = WriterState::Committing;
        proof {
            assert(self@ =~= (HandleV { writer_state: WriterState::Committing, ..pre }));
        }
        Ok(())
    }

    /// Step two of a commit cycle: applies the outcome of the engine's
    /// flush. `engine_ok` reports whether the flush of the pending buffer
    /// succeeded. On success the new generation is published atomically;
    /// on failure nothing is lost and the old generation stays
    /// authoritative, so a later cycle can retry.
    pub fn finish_commit(&mut self, now: u64, engine_ok: bool) -> (r: Result<u64, Error>)
        requires
            old(self)@.wf(),
            old(self)@.writer_state == WriterState::Committing,
            old(self)@.current_generation < u64::MAX,
        ensures
            final(self)@.wf(),
            final(self)@.current_generation >= old(self)@.current_generation,
            if engine_ok {
                &&& step_commit_published(old(self)@, final(self)@, now)
                &&& r matches Ok(g) && g == old(self)@.current_generation + 1
            } else {
                &&& step_commit_failed(old(self)@, final(self)@)
                &&& r matches Err(e) && e matches Error::CommitFailure
            },
    {
        let ghost pre = self@;
        if engine_ok {
            self.committed.append(&mut self.pending);
            self.current_generation = self.current_generation + 1;
            self.last_commit_time = now;
            self.writer_state = WriterState::Idle;
            proof {
                assert(docs_view(self.committed@) =~= pre.committed + pre.pending);
                assert(docs_view(self.pending@) =~= Seq::empty());
                assert(self@ =~= (HandleV {
                    writer_state: WriterState::Idle,
                    pending: Seq::empty(),
                    committed: pre.committed + pre.pending,
                    current_generation: (pre.current_generation + 1) as u64,
                    last_commit_time: now,
                    ..pre
                }));
            }
            Ok(self.current_generation)
        } else {
            self.writer_state = WriterState::Idle;
            proof {
                assert(self@ =~= (HandleV { writer_state: WriterState::Idle, ..pre }));
            }
            Err(Error::CommitFailure)
        }
    }
}

/// Any single observable transition of one handle: an accepted ingestion,
/// entering a commit cycle, a publish, a failed flush, or a rejected call
/// that left the handle untouched.
pub open spec fn handle_step(pre: HandleV, post: HandleV) -> bool {
    ||| post == pre
    ||| exists|doc: Seq<DocFieldV>| step_ingest(pre, post, doc)
    ||| step_begin_commit(pre, post)
    ||| exists|now: u64| step_commit_published(pre, post, now)
    ||| step_commit_failed(pre, post)
}

/// Single-writer invariant: while a commit cycle is in flight the writer
/// state is `Committing`, under which no ingestion step exists, so the
/// published segment is exactly the pre-cycle committed block followed by
/// the pre-cycle pending buffer as one contiguous block — no second
/// writer's documents can interleave.
pub proof fn lemma_single_writer(pre: HandleV, mid: HandleV, post: HandleV, now: u64)
    requires
        step_begin_commit(pre, mid),
        step_commit_published(mid, post, now),
    ensures
        mid.writer_state == WriterState::Committing,
        forall|mid2: HandleV, doc: Seq<DocFieldV>| !step_ingest(mid, mid2, doc),
        post.committed == pre.committed + pre.pending,
        post.pending.len() == 0,
{
}

/// Write invisibility: an accepted ingestion changes neither the committed
/// documents nor the published generation, so no reader can observe a
/// buffered document before a commit publishes it.
pub proof fn lemma_writes_invisible_until_commit(pre: HandleV, post: HandleV, doc: Seq<DocFieldV>)
    requires
        step_ingest(pre, post, doc),
    ensures
        post.committed == pre.committed,
        post.current_generation == pre.current_generation,
        post.pending == pre.pending.push(doc),
{
}

/// Monotonic generations, one step: no transition of a handle ever
/// decreases `current_generation`.
pub proof fn lemma_monotonic_generation(pre: HandleV, post: HandleV)
    requires
        handle_step(pre, post),
    ensures
        post.current_generation >= pre.current_generation,
{
}

/// Monotonic generations over a whole lifetime: along any sequence of
/// handle states where each state follows from the previous one by a
/// single transition, generations never decrease, failed commit attempts
/// included.
pub proof fn lemma_monotonic_generation_trace(trace: Seq<HandleV>, i: int, j: int)
    requires
        forall|k: int| 0 <= k < trace.len() - 1 ==> handle_step(#[trigger] trace[k], trace[k + 1]),
        0 <= i <= j < trace.len(),
    ensures
        trace[i].current_generation <= trace[j].current_generation,
    decreases j - i,
{
    if i < j {
        lemma_monotonic_generation_trace(trace, i, j - 1);
        assert(handle_step(trace[j - 1], trace[j]));
        lemma_monotonic_generation(trace[j - 1], trace[j]);
    }
}

/// Failure containment: a commit cycle whose flush fails leaves the pending
/// buffer, the committed documents and the generation exactly as they were
/// before the attempt, and the next successful cycle publishes all the
/// previously pending documents.
pub proof fn lemma_failure_containment(
    pre: HandleV,
    c1: HandleV,
    failed: HandleV,
    c2: HandleV,
    post: HandleV,
    now: u64,
)
    requires
        step_begin_commit(pre, c1),
        step_commit_failed(c1, failed),
        step_begin_commit(failed, c2),
        step_commit_published(c2, post, now),
    ensures
        failed.pending == pre.pending,
        failed.committed == pre.committed,
        failed.current_generation == pre.current_generation,
        post.committed == pre.committed + pre.pending,
        post.current_generation == pre.current_generation + 1,
        post.pending.len() == 0,
{
}

} // verus!
