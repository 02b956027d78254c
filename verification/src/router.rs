//! The request router: resolves an operation's target index name against
//! the catalog and forwards the operation to the corresponding handle,
//! translating an unknown name into a typed `NotFound` error with no side
//! effect. The router itself never retries; and because index names are
//! unique keys under the catalog invariant, routing is idempotent — the
//! same name always resolves to the same handle instance (see
//! `lemma_routing_idempotent`).

use vstd::prelude::*;

use crate::error::Error;
use crate::index::{delete_outcome, ingest_outcome, search_outcome, IndexCatalog};
use crate::query::{Query, QueryV, SearchResults};
use crate::schema::{DocFieldV, Document};

verus! {

/// Mathematical model of an operation.
pub enum OperationV {
    Ingest(Seq<DocFieldV>),
    Query(QueryV),
    DeleteIndex,
    ListIndices,
}

/// An operation submitted against a named index.
#[derive(Debug)]
pub enum Operation {
    /// Buffer one document into the index's writer.
    Ingest(Document),
    /// Run a query against the index's published generation.
    Query(Query),
    /// Unregister the index and drop its handle.
    DeleteIndex,
    /// Snapshot the registered index names.
    ListIndices,
}

impl View for Operation {
    type V = OperationV;

    open spec fn view(&self) -> OperationV {
        match self {
            Operation::Ingest(doc) => OperationV::Ingest(doc@),
            Operation::Query(q) => OperationV::Query(q@),
            Operation::DeleteIndex => OperationV::DeleteIndex,
            Operation::ListIndices => OperationV::ListIndices,
        }
    }
}

/// The payload of a successful dispatch.
#[derive(Debug)]
pub enum Response {
    /// The document was accepted into the pending buffer.
    Ingested,
    /// The query's result set.
    Hits(SearchResults),
    /// The index was unregistered.
    Deleted,
    /// The registered index names.
    IndexNames(Vec<String>),
}

/// Resolves `index_name` via the catalog and forwards the operation to the
/// handle registered under it, returning its result or error unchanged; an
/// unregistered name gives `NotFound` without side effects. Listing the
/// indices needs no resolution and reflects an instantaneous snapshot.
pub fn dispatch(catalog: &mut IndexCatalog, index_name: &String, operation: Operation) -> (r:
    Result<Response, Error>)
    requires
        old(catalog)@.wf(),
    ensures
        final(catalog)@.wf(),
        final(catalog)@.settings == old(catalog)@.settings,
        match operation {
            Operation::Ingest(doc) => match r {
                Ok(resp) => resp matches Response::Ingested && ingest_outcome(
                    old(catalog)@,
                    final(catalog)@,
                    index_name@,
                    doc@,
                    Ok(()),
                ),
                Err(e) => ingest_outcome(
                    old(catalog)@,
                    final(catalog)@,
                    index_name@,
                    doc@,
                    Err(e),
                ),
            },
            Operation::Query(q) => final(catalog)@ == old(catalog)@ && match r {
                Ok(resp) => resp matches Response::Hits(res) && search_outcome(
                    old(catalog)@,
                    index_name@,
                    q@,
                    Ok(res),
                ),
                Err(e) => search_outcome(old(catalog)@, index_name@, q@, Err(e)),
            },
            Operation::DeleteIndex => match r {
                Ok(resp) => resp matches Response::Deleted && delete_outcome(
                    old(catalog)@,
                    final(catalog)@,
                    index_name@,
                    Ok(()),
                ),
                Err(e) => delete_outcome(old(catalog)@, final(catalog)@, index_name@, Err(e)),
            },
            Operation::ListIndices => final(catalog)@ == old(catalog)@ && match r {
                Ok(resp) => resp matches Response::IndexNames(ns) && ns@.len() == old(
                    catalog,
                )@.handles.len() && (forall|i: int|
                    0 <= i < ns@.len() ==> (#[trigger] ns@[i])@ == old(catalog)@.handles[i].name),
                Err(_) => false,
            },
        },
{
    match operation {
        Operation::Ingest(doc) => match catalog.ingest_document(index_name, doc) {
            Ok(()) => Ok(Response::Ingested),
            Err(e) => Err(e),
        },
        Operation::Query(q) => match catalog.search_index(index_name, &q) {
            Ok(res) => Ok(Response::Hits(res)),
            Err(e) => Err(e),
        },
        Operation::DeleteIndex => match catalog.delete_index(index_name) {
            Ok(()) => Ok(Response::Deleted),
            Err(e) => Err(e),
        },
        Operation::ListIndices => Ok(Response::IndexNames(catalog.list_indices())),
    }
}

} // verus!
