//! Core of a multi-index full-text search server: an index catalog that owns
//! the lifecycle of every named index, a per-index commit scheduler that
//! decides when pending writes become a new readable generation, and a
//! router that dispatches operations to the right index handle.

use vstd::prelude::*;

mod commit;
mod error;
mod handle;
mod index;
mod query;
mod router;
mod schema;
mod settings;
mod shutdown;

pub use commit::{run_commit_cycle, should_commit, spec_should_commit, tick};
pub use error::Error;
pub use handle::{
    clone_documents, docs_view, fresh_handle, handle_step, lemma_failure_containment,
    lemma_monotonic_generation, lemma_monotonic_generation_trace, lemma_single_writer,
    lemma_writes_invisible_until_commit,
    step_begin_commit, step_commit_failed, step_commit_published, step_ingest, HandleV,
    IndexHandle, WriterState,
};
pub use index::{
    delete_outcome, directory_of, entries_view, entry_readable, handles_have_name, handles_wf, ingest_outcome,
    lemma_directories_unique, lemma_round_trip, lemma_routing_idempotent, persisted_of, search_outcome, spec_load,
    spec_load_skipped, spec_storage_of, CatalogV, IndexCatalog, PersistedIndex, PersistedIndexV,
};
pub use query::{
    doc_matches, document_matches, lemma_snapshot_isolation, matching_docs, Query, QueryV,
    SearchResults, Searcher, SearcherV,
};
pub use router::{dispatch, Operation, OperationV, Response};
pub use schema::{
    doc_conforms, field_conforms, schema_field_ok, schema_has_field, schema_wf, validate_document,
    DocField, DocFieldV, Document, FieldType, FieldValue, FieldValueV, Schema, SchemaField,
    SchemaFieldV,
};
pub use settings::{CommitPolicy, Settings, SettingsV};
pub use shutdown::{drain_catalog, drain_error_of, drain_handle, spec_drain_errors, CommitOutcome};

verus! {

/// Builds the process-wide catalog from the configuration record: an empty
/// registry over the given base directory and commit policy defaults,
/// ready for `load_existing` or `create_index`.
pub fn setup_catalog(settings: &Settings) -> (catalog: IndexCatalog)
    ensures
        catalog@.settings == settings@,
        catalog@.handles.len() == 0,
        catalog@.wf(),
{
    IndexCatalog::new(settings.clone())
}

} // verus!
