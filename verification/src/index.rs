//! The index catalog: the process-wide registry mapping index name to
//! index handle. It owns all handles exclusively, enforces unique names,
//! and carries the structural operations — create, delete, lookup, list,
//! and loading previously persisted indices at startup.
//!
//! Persistence model: each index's on-disk record carries its name, its
//! schema, its committed documents and its last published generation —
//! exactly what a commit makes durable. `snapshot_storage` produces those
//! records; `load_existing` rebuilds a catalog from them, skipping a
//! corrupt record with a reported error instead of failing startup.

use vstd::prelude::*;

use crate::error::Error;
use crate::handle::{clone_documents, docs_view, fresh_handle, HandleV, IndexHandle, WriterState};
use crate::schema::{doc_conforms, schema_wf, Document, Schema, SchemaFieldV, DocFieldV};
use crate::settings::{CommitPolicy, Settings, SettingsV};

verus! {

/// Mathematical model of one persisted index record.
pub struct PersistedIndexV {
    pub name: Seq<char>,
    pub schema: Seq<SchemaFieldV>,
    pub docs: Seq<Seq<DocFieldV>>,
    pub generation: u64,
}

/// The durable record of one index: what survives a process restart.
#[derive(Debug)]
pub struct PersistedIndex {
    pub name: String,
    pub schema: Schema,
    pub docs: Vec<Document>,
    pub generation: u64,
}

impl View for PersistedIndex {
    type V = PersistedIndexV;

    open spec fn view(&self) -> PersistedIndexV {
        PersistedIndexV {
            name: self.name@,
            schema: self.schema@,
            docs: docs_view(self.docs@),
            generation: self.generation,
        }
    }
}

/// The views of a sequence of persisted records.
pub open spec fn entries_view(es: Seq<PersistedIndex>) -> Seq<PersistedIndexV> {
    Seq::new(es.len(), |i: int| es[i]@)
}

/// A persisted record is readable when its schema is well-formed and every
/// stored document conforms to it; anything else counts as corrupt and is
/// skipped at startup.
pub open spec fn entry_readable(e: PersistedIndexV) -> bool {
    &&& schema_wf(e.schema)
    &&& forall|i: int| 0 <= i < e.docs.len() ==> doc_conforms(#[trigger] e.docs[i], e.schema)
}

/// Some handle in the sequence carries this index name.
pub open spec fn handles_have_name(hs: Seq<HandleV>, name: Seq<char>) -> bool {
    exists|i: int| 0 <= i < hs.len() && hs[i].name == name
}

/// Catalog-wide invariant over the handles: every handle is well-formed
/// and index names are unique keys.
pub open spec fn handles_wf(hs: Seq<HandleV>) -> bool {
    &&& forall|i: int| 0 <= i < hs.len() ==> (#[trigger] hs[i]).wf()
    &&& forall|i: int, j: int| 0 <= i < j < hs.len() ==> hs[i].name != hs[j].name
}

/// The handles that startup loading yields from a sequence of persisted
/// records: each readable record whose name is not already taken becomes a
/// fresh idle handle at its last published generation; the rest are
/// skipped.
pub open spec fn spec_load(es: Seq<PersistedIndexV>, policy: CommitPolicy, now: u64) -> Seq<
    HandleV,
>
    decreases es.len(),
{
    if es.len() == 0 {
        Seq::empty()
    } else {
        let rest = spec_load(es.drop_last(), policy, now);
        let e = es.last();
        if entry_readable(e) && !handles_have_name(rest, e.name) {
            rest.push(fresh_handle(e.name, e.schema, policy, e.docs, e.generation, now))
        } else {
            rest
        }
    }
}

/// The names of the records that startup loading skips, in input order.
pub open spec fn spec_load_skipped(
    es: Seq<PersistedIndexV>,
    policy: CommitPolicy,
    now: u64,
) -> Seq<Seq<char>>
    decreases es.len(),
{
    if es.len() == 0 {
        Seq::empty()
    } else {
        let rest = spec_load_skipped(es.drop_last(), policy, now);
        let e = es.last();
        if entry_readable(e) && !handles_have_name(spec_load(es.drop_last(), policy, now), e.name) {
            rest
        } else {
            rest.push(e.name)
        }
    }
}

/// The persisted record of one handle: committed state only; pending
/// writes are not durable.
pub open spec fn persisted_of(h: HandleV) -> PersistedIndexV {
    PersistedIndexV {
        name: h.name,
        schema: h.schema,
        docs: h.committed,
        generation: h.current_generation,
    }
}

/// The persisted records of a whole catalog, in registry order.
pub open spec fn spec_storage_of(hs: Seq<HandleV>) -> Seq<PersistedIndexV> {
    Seq::new(hs.len(), |i: int| persisted_of(hs[i]))
}

/// Mathematical model of the catalog.
#[verifier::ext_equal]
pub struct CatalogV {
    pub settings: SettingsV,
    pub handles: Seq<HandleV>,
}

impl CatalogV {
    pub open spec fn wf(self) -> bool {
        handles_wf(self.handles)
    }
}

/// The exact outcome of routing one document to the index named `name`:
/// on success the document entered that handle's pending buffer by a
/// single ingestion step and no other handle moved; each failure leaves
/// the catalog unchanged and says exactly when it occurs.
pub open spec fn ingest_outcome(
    pre: CatalogV,
    post: CatalogV,
    name: Seq<char>,
    doc: Seq<DocFieldV>,
    r: Result<(), Error>,
) -> bool {
    match r {
        Ok(()) => exists|i: int|
            {
                &&& 0 <= i < pre.handles.len()
                &&& (#[trigger] pre.handles[i]).name == name
                &&& crate::handle::step_ingest(pre.handles[i], post.handles[i], doc)
                &&& post.handles == pre.handles.update(i, post.handles[i])
            },
        Err(e) => post == pre && match e {
            Error::NotFound(n) => n@ == name && !handles_have_name(pre.handles, name),
            Error::WriterBusy => exists|i: int|
                0 <= i < pre.handles.len() && (#[trigger] pre.handles[i]).name == name
                    && pre.handles[i].writer_state == WriterState::Committing,
            Error::SchemaValidationError(f) => exists|i: int|
                {
                    &&& 0 <= i < pre.handles.len()
                    &&& (#[trigger] pre.handles[i]).name == name
                    &&& pre.handles[i].writer_state != WriterState::Committing
                    &&& !doc_conforms(doc, pre.handles[i].schema)
                    &&& exists|k: int|
                        0 <= k < doc.len() && !crate::schema::field_conforms(
                            #[trigger] doc[k],
                            pre.handles[i].schema,
                        ) && f@ == doc[k].name
                },
            _ => false,
        },
    }
}

/// The exact outcome of deleting the index named `name`: on success that
/// one handle — not mid-commit — left the registry and the name resolves
/// no more; each failure leaves the catalog unchanged.
pub open spec fn delete_outcome(
    pre: CatalogV,
    post: CatalogV,
    name: Seq<char>,
    r: Result<(), Error>,
) -> bool {
    match r {
        Ok(()) => {
            &&& exists|i: int|
                {
                    &&& 0 <= i < pre.handles.len()
                    &&& (#[trigger] pre.handles[i]).name == name
                    &&& pre.handles[i].writer_state != WriterState::Committing
                    &&& post.handles == pre.handles.remove(i)
                }
            &&& !handles_have_name(post.handles, name)
        },
        Err(e) => post == pre && match e {
            Error::NotFound(n) => n@ == name && !handles_have_name(pre.handles, name),
            Error::WriterBusy => exists|i: int|
                0 <= i < pre.handles.len() && (#[trigger] pre.handles[i]).name == name
                    && pre.handles[i].writer_state == WriterState::Committing,
            _ => false,
        },
    }
}

/// The exact outcome of a query routed to the index named `name`: the
/// result set is the matching subsequence of that handle's committed
/// documents, tagged with its published generation; an unknown name gives
/// `NotFound`. The catalog itself is never changed by a query.
pub open spec fn search_outcome(
    c: CatalogV,
    name: Seq<char>,
    q: crate::query::QueryV,
    r: Result<crate::query::SearchResults, Error>,
) -> bool {
    match r {
        Ok(res) => exists|i: int|
            {
                &&& 0 <= i < c.handles.len()
                &&& (#[trigger] c.handles[i]).name == name
                &&& res.generation == c.handles[i].current_generation
                &&& docs_view(res.docs@) == crate::query::matching_docs(c.handles[i].committed, q)
            },
        Err(e) => {
            &&& e matches Error::NotFound(n) && n@ == name
            &&& !handles_have_name(c.handles, name)
        },
    }
}

/// The process-wide registry of open index handles.
#[derive(Debug)]
pub struct IndexCatalog {
    pub settings: Settings,
    pub handles: Vec<IndexHandle>,
}

impl View for IndexCatalog {
    type V = CatalogV;

    open spec fn view(&self) -> CatalogV {
        CatalogV {
            settings: self.settings@,
            handles: Seq::new(self.handles@.len(), |i: int| self.handles@[i]@),
        }
    }
}

/// Whether some handle in the vector carries this name.
fn handles_contain(handles: &Vec<IndexHandle>, name: &String) -> (r: Option<usize>)
    ensures
        match r {
            Some(i) => i < handles@.len() && handles@[i as int]@.name == name@,
            None => !handles_have_name(Seq::new(handles@.len(), |i: int| handles@[i]@), name@),
        },
{
    let ghost hs = Seq::new(handles@.len(), |i: int| handles@[i]@);
    let mut i: usize = 0;
    while i < handles.len()
        invariant
            i <= handles@.len(),
            hs == Seq::new(handles@.len(), |k: int| handles@[k]@),
            forall|k: int| 0 <= k < i ==> hs[k].name != name@,
        decreases handles@.len() - i,
    {
        if handles[i].name == *name {
            proof {
                assert(hs[i as int].name == name@);
            }
            return Some(i);
        }
        i += 1;
    }
    None
}

impl IndexCatalog {
    /// An empty catalog over the given settings.
    pub fn new(settings: Settings) -> (c: IndexCatalog)
        ensures
            c@.settings == settings@,
            c@.handles.len() == 0,
            c@.wf(),
    {
        IndexCatalog { settings, handles: Vec::new() }
    }

    /// Position of the handle registered under `name`, if any.
    pub fn find(&self, name: &String) -> (r: Option<usize>)
        ensures
            match r {
                Some(i) => i < self@.handles.len() && self@.handles[i as int].name == name@,
                None => !handles_have_name(self@.handles, name@),
            },
    {
        handles_contain(&self.handles, name)
    }

    /// The only read path into the registry: the shared handle registered
    /// under `name`, or `NotFound`.
    pub fn get_index(&self, name: &String) -> (r: Result<&IndexHandle, Error>)
        ensures
            match r {
                Ok(h) => {
                    &&& handles_have_name(self@.handles, name@)
                    &&& h@.name == name@
                    &&& exists|i: int|
                        0 <= i < self@.handles.len() && #[trigger] self@.handles[i] == h@
                },
                Err(e) => {
                    &&& !handles_have_name(self@.handles, name@)
                    &&& e matches Error::NotFound(n) && n@ == name@
                },
            },
    {
        match self.find(name) {
            Some(i) => {
                let h = &self.handles[i];
                proof {
                    assert(self@.handles[i as int] == h@);
                }
                Ok(h)
            },
            None => Err(Error::NotFound(name.clone())),
        }
    }

    /// Registers a brand-new index under `name` at generation zero, or
    /// fails with `AlreadyExists` and changes nothing. On success returns
    /// the new handle's registry position.
    pub fn create_index(&mut self, name: String, schema: Schema, now: u64) -> (r: Result<
        usize,
        Error,
    >)
        requires
            old(self)@.wf(),
            schema.wf(),
        ensures
            final(self)@.wf(),
            final(self)@.settings == old(self)@.settings,
            match r {
                Ok(i) => {
                    &&& !handles_have_name(old(self)@.handles, name@)
                    &&& i == old(self)@.handles.len()
                    &&& final(self)@.handles == old(self)@.handles.push(
                        fresh_handle(
                            name@,
                            schema@,
                            old(self)@.settings.default_policy,
                            Seq::empty(),
                            0,
                            now,
                        ),
                    )
                },
                Err(e) => {
                    &&& e matches Error::AlreadyExists(n) && n@ == name@
                    &&& handles_have_name(old(self)@.handles, name@)
                    &&& final(self)@ == old(self)@
                },
            },
    {
        if let Some(_) = self.find(&name) {
            return Err(Error::AlreadyExists(name));
        }
        let ghost pre = self@;
        let i = self.handles.len();
        let h = IndexHandle::new(name, schema, self.settings.default_policy, now);
        let ghost hv = h@;
        self.handles.push(h);
        proof {
            assert(self@.handles =~= pre.handles.push(hv));
            assert forall|a: int, b: int|
                0 <= a < b < self@.handles.len() implies self@.handles[a].name
                != self@.handles[b].name by {
                if b < pre.handles.len() {
                } else {
                    assert(self@.handles[b] == hv);
                    assert(!handles_have_name(pre.handles, hv.name));
                }
            }
            assert(self@ =~= (CatalogV { handles: pre.handles.push(hv), ..pre }));
        }
        Ok(i)
    }

    /// Unregisters the index named `name` and drops its handle. An
    /// in-flight commit must finish first: deletion during one is refused
    /// with `WriterBusy` (the serialized stand-in for waiting on it), so a
    /// handle is never dropped mid-commit.
    pub fn delete_index(&mut self, name: &String) -> (r: Result<(), Error>)
        requires
            old(self)@.wf(),
        ensures
            final(self)@.wf(),
            final(self)@.settings == old(self)@.settings,
            delete_outcome(old(self)@, final(self)@, name@, r),
    {
        let i = match self.find(name) {
            None => {
                return Err(Error::NotFound(name.clone()));
            },
            Some(i) => i,
        };
        if matches!(self.handles[i].writer_state, WriterState::Committing) {
            return Err(Error::WriterBusy);
        }
        let ghost pre = self@;
        let _ = self.handles.remove(i);
        proof {
            pre.handles.remove_ensures(i as int);
            assert(self@.handles =~= pre.handles.remove(i as int));
            assert forall|k: int|
                0 <= k < self@.handles.len() implies !(#[trigger] self@.handles[k].name == name@)
            by {
                if k < i {
                    assert(self@.handles[k] == pre.handles[k]);
                    assert(pre.handles[k].name != pre.handles[i as int].name);
                } else {
                    assert(self@.handles[k] == pre.handles[k + 1]);
                    assert(pre.handles[i as int].name != pre.handles[k + 1].name);
                }
            }
            assert(self@ =~= (CatalogV { handles: pre.handles.remove(i as int), ..pre }));
        }
        Ok(())
    }

    /// An instantaneous snapshot of the registered index names, in
    /// registry order.
    pub fn list_indices(&self) -> (names: Vec<String>)
        ensures
            names@.len() == self@.handles.len(),
            forall|i: int| 0 <= i < names@.len() ==> (#[trigger] names@[i])@ == self@.handles[i].name,
    {
        let mut names: Vec<String> = Vec::new();
        let mut i: usize = 0;
        while i < self.handles.len()
            invariant
                i <= self.handles@.len(),
                names@.len() == i,
                forall|k: int| 0 <= k < i ==> (#[trigger] names@[k])@ == self@.handles[k].name,
            decreases self.handles@.len() - i,
        {
            names.push(self.handles[i].name.clone());
            i += 1;
        }
        names
    }

    /// The catalog's durable state: one record per index, carrying exactly
    /// the committed documents and the published generation. Pending writes
    /// are not persisted — only a commit makes them durable.
    pub fn snapshot_storage(&self) -> (entries: Vec<PersistedIndex>)
        ensures
            entries_view(entries@) == spec_storage_of(self@.handles),
    {
        let mut entries: Vec<PersistedIndex> = Vec::new();
        let mut i: usize = 0;
        while i < self.handles.len()
            invariant
                i <= self.handles@.len(),
                entries@.len() == i,
                forall|k: int| 0 <= k < i ==> (#[trigger] entries@[k])@ == persisted_of(
                    self@.handles[k],
                ),
            decreases self.handles@.len() - i,
        {
            let h = &self.handles[i];
            let entry = PersistedIndex {
                name: h.name.clone(),
                schema: h.schema.clone(),
                docs: clone_documents(&h.committed),
                generation: h.current_generation,
            };
            proof {
                assert(entry@ =~= persisted_of(self@.handles[i as int]));
            }
            entries.push(entry);
            i += 1;
        }
        proof {
            assert(entries_view(entries@) =~= spec_storage_of(self@.handles));
        }
        entries
    }

    /// Routes one document to the index named `name` and buffers it there:
    /// resolve, validate, append to the pending buffer. Nothing becomes
    /// readable before a commit. Fails with `NotFound` (unknown name),
    /// `WriterBusy` (commit in flight) or `SchemaValidationError` (typing),
    /// each leaving the catalog unchanged.
    pub fn ingest_document(&mut self, name: &String, doc: Document) -> (r: Result<(), Error>)
        requires
            old(self)@.wf(),
        ensures
            final(self)@.wf(),
            final(self)@.settings == old(self)@.settings,
            ingest_outcome(old(self)@, final(self)@, name@, doc@, r),
    {
        let i = match self.find(name) {
            None => {
                return Err(Error::NotFound(name.clone()));
            },
            Some(i) => i,
        };
        let ghost pre = self@;
        let h = &mut self.handles[i];
        let r = h.add_document(doc);
        proof {
            assert(self@.handles =~= pre.handles.update(i as int, self@.handles[i as int]));
            assert forall|a: int, b: int|
                0 <= a < b < self@.handles.len() implies self@.handles[a].name
                != self@.handles[b].name by {
                assert(self@.handles[a].name == pre.handles[a].name);
                assert(self@.handles[b].name == pre.handles[b].name);
            }
            if r is Err {
                assert(self@.handles =~= pre.handles);
                assert(self@ =~= pre);
            }
        }
        r
    }

    /// Resolves `name` and runs a query against the handle's currently
    /// published generation, via a snapshot searcher: never blocked by, and
    /// never observing, any in-flight write.
    pub fn search_index(&self, name: &String, query: &crate::query::Query) -> (r: Result<
        crate::query::SearchResults,
        Error,
    >)
        ensures
            search_outcome(self@, name@, query@, r),
    {
        let i = match self.find(name) {
            None => {
                return Err(Error::NotFound(name.clone()));
            },
            Some(i) => i,
        };
        let searcher = self.handles[i].searcher();
        let res = searcher.search(query);
        proof {
            assert(self@.handles[i as int].name == name@);
        }
        Ok(res)
    }

    /// Startup loading: rebuilds a catalog from the persisted records found
    /// under the base directory. A corrupt record — ill-formed schema, a
    /// stored document that does not conform, or a name already taken — is
    /// skipped with a `StartupLoadError` naming it; the remaining indices
    /// still load, preferring partial availability over total failure.
    pub fn load_existing(settings: Settings, entries: Vec<PersistedIndex>, now: u64) -> (r: (
        IndexCatalog,
        Vec<Error>,
    ))
        ensures
            r.0@.settings == settings@,
            r.0@.wf(),
            r.0@.handles == spec_load(entries_view(entries@), settings@.default_policy, now),
            ({
                let skipped = spec_load_skipped(
                    entries_view(entries@),
                    settings@.default_policy,
                    now,
                );
                &&& r.1@.len() == skipped.len()
                &&& forall|k: int|
                    0 <= k < skipped.len() ==> ((#[trigger] r.1@[k]) matches Error::StartupLoadError(n)
                        && n@ == skipped[k])
            }),
    {
        let ghost sv = settings@;
        let policy = settings.default_policy;
        let mut catalog = IndexCatalog::new(settings);
        let mut errors: Vec<Error> = Vec::new();
        let ghost evs = entries_view(entries@);
        let mut i: usize = 0;
        proof {
            assert(evs.subrange(0, 0) =~= Seq::<PersistedIndexV>::empty());
        }
        while i < entries.len()
            invariant
                i <= entries@.len(),
                evs == entries_view(entries@),
                evs.len() == entries@.len(),
                catalog@.settings == sv,
                policy == sv.default_policy,
                catalog@.wf(),
                catalog@.handles == spec_load(evs.subrange(0, i as int), policy, now),
                errors@.len() == spec_load_skipped(evs.subrange(0, i as int), policy, now).len(),
                forall|k: int|
                    0 <= k < errors@.len() ==> ((#[trigger] errors@[k]) matches
                        Error::StartupLoadError(n) && n@ == spec_load_skipped(
                        evs.subrange(0, i as int),
                        policy,
                        now,
                    )[k]),
            decreases entries@.len() - i,
        {
            let ghost prefix = evs.subrange(0, i as int);
            let e = &entries[i];
            proof {
                assert(e@ == evs[i as int]);
            }
            let readable = if e.schema.is_wf() {
                documents_conform(&e.schema, &e.docs)
            } else {
                false
            };
            proof {
                assert(readable == entry_readable(evs[i as int]));
            }
            let taken = match catalog.find(&e.name) {
                Some(j) => {
                    proof {
                        assert(handles_have_name(catalog@.handles, e@.name));
                    }
                    true
                },
                None => false,
            };
            let ghost pre_handles = catalog@.handles;
            let ghost pre_skipped = spec_load_skipped(prefix, policy, now);
            if readable && !taken {
                let h = IndexHandle {
                    name: e.name.clone(),
                    schema: e.schema.clone(),
                    policy,
                    writer_state: WriterState::Idle,
                    pending: Vec::new(),
                    committed: clone_documents(&e.docs),
                    current_generation: e.generation,
                    last_commit_time: now,
                };
                proof {
                    assert(h@ =~= fresh_handle(
                        evs[i as int].name,
                        evs[i as int].schema,
                        policy,
                        evs[i as int].docs,
                        evs[i as int].generation,
                        now,
                    ));
                    assert(h@.wf());
                }
                catalog.handles.push(h);
                proof {
                    assert(catalog@.handles =~= pre_handles.push(
                        fresh_handle(
                            evs[i as int].name,
                            evs[i as int].schema,
                            policy,
                            evs[i as int].docs,
                            evs[i as int].generation,
                            now,
                        ),
                    ));
                    assert forall|a: int, b: int|
                        0 <= a < b < catalog@.handles.len() implies catalog@.handles[a].name
                        != catalog@.handles[b].name by {
                        if b < pre_handles.len() {
                        } else {
                            assert(!handles_have_name(pre_handles, evs[i as int].name));
                        }
                    }
                }
            } else {
                errors.push(Error::StartupLoadError(e.name.clone()));
            }
            proof {
                assert(evs.subrange(0, i + 1).drop_last() =~= prefix);
                assert(evs.subrange(0, i + 1).last() == evs[i as int]);
                assert(spec_load(evs.subrange(0, i + 1), policy, now) == if entry_readable(
                    evs[i as int],
                ) && !handles_have_name(spec_load(prefix, policy, now), evs[i as int].name) {
                    spec_load(prefix, policy, now).push(
                        fresh_handle(
                            evs[i as int].name,
                            evs[i as int].schema,
                            policy,
                            evs[i as int].docs,
                            evs[i as int].generation,
                            now,
                        ),
                    )
                } else {
                    spec_load(prefix, policy, now)
                });
                if !(readable && !taken) {
                    assert(spec_load_skipped(evs.subrange(0, i + 1), policy, now) =~= pre_skipped.push(
                        evs[i as int].name,
                    ));
                } else {
                    assert(spec_load_skipped(evs.subrange(0, i + 1), policy, now) =~= pre_skipped);
                }
            }
            i += 1;
        }
        proof {
            assert(evs.subrange(0, entries@.len() as int) =~= evs);
        }
        (catalog, errors)
    }
}

/// Whether every document in the vector conforms to the schema.
fn documents_conform(schema: &Schema, docs: &Vec<Document>) -> (b: bool)
    requires
        schema.wf(),
    ensures
        b == (forall|i: int|
            0 <= i < docs@.len() ==> doc_conforms(#[trigger] docs_view(docs@)[i], schema@)),
{
    let mut i: usize = 0;
    while i < docs.len()
        invariant
            schema.wf(),
            i <= docs@.len(),
            forall|k: int| 0 <= k < i ==> doc_conforms(#[trigger] docs_view(docs@)[k], schema@),
        decreases docs@.len() - i,
    {
        let ok = match crate::schema::validate_document(schema, &docs[i]) {
            Ok(()) => true,
            Err(_) => false,
        };
        if !ok {
            proof {
                assert(!doc_conforms(docs_view(docs@)[i as int], schema@));
            }
            return false;
        }
        i += 1;
    }
    true
}

/// The deterministic on-disk directory of an index: the configured base
/// directory, a path separator, and the index name.
pub open spec fn directory_of(base: Seq<char>, name: Seq<char>) -> Seq<char> {
    base + seq!['/'] + name
}

/// No two registered indices share an on-disk directory: directories are
/// derived deterministically from index names, and names are unique keys
/// under the catalog invariant.
pub proof fn lemma_directories_unique(hs: Seq<HandleV>, base: Seq<char>, i: int, j: int)
    requires
        handles_wf(hs),
        0 <= i < hs.len(),
        0 <= j < hs.len(),
        i != j,
    ensures
        directory_of(base, hs[i].name) != directory_of(base, hs[j].name),
{
    let n1 = hs[i].name;
    let n2 = hs[j].name;
    assert(n1 != n2) by {
        if i < j {
            assert(hs[i].name != hs[j].name);
        } else {
            assert(hs[j].name != hs[i].name);
        }
    }
    if directory_of(base, n1) == directory_of(base, n2) {
        assert(directory_of(base, n1).len() == base.len() + 1 + n1.len());
        assert(directory_of(base, n2).len() == base.len() + 1 + n2.len());
        assert(n1.len() == n2.len());
        assert forall|k: int| 0 <= k < n1.len() implies n1[k] == n2[k] by {
            assert(directory_of(base, n1)[base.len() + 1 + k] == n1[k]);
            assert(directory_of(base, n2)[base.len() + 1 + k] == n2[k]);
        }
        assert(n1 =~= n2);
        assert(false);
    }
}

/// Idempotent routing: under the catalog invariant, index names are unique
/// keys, so any two resolutions of the same name — however interleaved with
/// other reads — land on the same registry position, hence the same handle
/// instance; no two divergent handles can answer for one name.
pub proof fn lemma_routing_idempotent(hs: Seq<HandleV>, name: Seq<char>, i: int, j: int)
    requires
        handles_wf(hs),
        0 <= i < hs.len(),
        0 <= j < hs.len(),
        hs[i].name == name,
        hs[j].name == name,
    ensures
        i == j,
{
    if i < j {
        assert(hs[i].name != hs[j].name);
    } else if j < i {
        assert(hs[j].name != hs[i].name);
    }
}

/// Round-trip durability: persisting a well-formed catalog and loading the
/// records back yields the same indices — same names, same schemas, the
/// same committed documents at the same generations — with no record
/// skipped. Pending (uncommitted) writes are absent, as only commits are
/// durable.
pub proof fn lemma_round_trip(hs: Seq<HandleV>, policy: CommitPolicy, now: u64)
    requires
        handles_wf(hs),
    ensures
        ({
            let loaded = spec_load(spec_storage_of(hs), policy, now);
            &&& loaded.len() == hs.len()
            &&& forall|i: int|
                0 <= i < hs.len() ==> loaded[i] == fresh_handle(
                    (#[trigger] hs[i]).name,
                    hs[i].schema,
                    policy,
                    hs[i].committed,
                    hs[i].current_generation,
                    now,
                )
        }),
        spec_load_skipped(spec_storage_of(hs), policy, now).len() == 0,
    decreases hs.len(),
{
    if hs.len() > 0 {
        let prefix = hs.drop_last();
        let last = hs.last();
        assert(handles_wf(prefix)) by {
            assert(forall|i: int| 0 <= i < prefix.len() ==> prefix[i] == hs[i]);
        }
        lemma_round_trip(prefix, policy, now);
        let st = spec_storage_of(hs);
        assert(st.drop_last() =~= spec_storage_of(prefix));
        assert(st.last() == persisted_of(last));
        assert(last.wf());
        assert(entry_readable(persisted_of(last)));
        let rest = spec_load(spec_storage_of(prefix), policy, now);
        assert(!handles_have_name(rest, last.name)) by {
            if handles_have_name(rest, last.name) {
                let k = choose|k: int| 0 <= k < rest.len() && rest[k].name == last.name;
                assert(rest[k] == fresh_handle(
                    prefix[k].name,
                    prefix[k].schema,
                    policy,
                    prefix[k].committed,
                    prefix[k].current_generation,
                    now,
                ));
                assert(hs[k].name == last.name);
                assert(hs[k].name != hs[hs.len() - 1].name);
            }
        }
        let pushed = fresh_handle(
            last.name,
            last.schema,
            policy,
            last.committed,
            last.current_generation,
            now,
        );
        assert(spec_load(st, policy, now) == rest.push(pushed));
        let loaded = spec_load(st, policy, now);
        assert forall|i: int|
            0 <= i < hs.len() implies loaded[i] == fresh_handle(
            (#[trigger] hs[i]).name,
            hs[i].schema,
            policy,
            hs[i].committed,
            hs[i].current_generation,
            now,
        ) by {
            if i < hs.len() - 1 {
                assert(prefix[i] == hs[i]);
                assert(loaded[i] == rest[i]);
            } else {
                assert(hs[i] == last);
                assert(loaded[i] == pushed);
            }
        }
    }
}

} // verus!
