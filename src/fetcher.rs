//! Dispatch of the fetch operations over the backend kind a source declares,
//! and the failure rules of list fetches.
use vstd::prelude::*;
use vstd::string::*;
use crate::error::MetadataError;
use crate::model::TableInfo;
use crate::source::{backend_label, is_relational, BackendKind, DataSource};

verus! {

/// Fetches metadata from sources and compares table structures.
pub struct MetadataFetcher;

/// The tables of a list fetch, in order, if every structure fetch succeeded.
pub open spec fn all_fetched(results: Seq<Result<TableInfo, MetadataError>>) -> bool {
    forall|i: int| 0 <= i < results.len() ==> #[trigger] results[i] is Ok
}

impl MetadataFetcher {
    /// The relational kind that a table-level fetch (tables, structure, row
    /// count) goes to. The streaming kind does not offer it, and an unknown
    /// kind is not supported at all.
    pub fn table_backend(data_source: &DataSource) -> (r: Result<BackendKind, MetadataError>)
        ensures
            r is Ok ==> is_relational(r->Ok_0) && data_source.data_type@ == backend_label(r->Ok_0),
            r is Err ==> (r->Err_0 is UnsupportedOperation && data_source.data_type@
                == backend_label(BackendKind::Kafka)) || (r->Err_0 is UnsupportedBackend
                && forall|k: BackendKind| data_source.data_type@ != #[trigger] backend_label(k)),
    {
        match BackendKind::parse(data_source.data_type.as_str()) {
            Ok(BackendKind::Kafka) => Err(
                MetadataError::UnsupportedOperation(
                    "Table metadata is not available for an event-stream source: ".to_owned().concat(
                        data_source.name.as_str(),
                    ),
                ),
            ),
            Ok(k) => Ok(k),
            Err(e) => Err(e),
        }
    }

    /// Checks that a topic-level fetch (topics, registry schemas) goes to
    /// the streaming kind.
    pub fn topic_backend(data_source: &DataSource) -> (r: Result<BackendKind, MetadataError>)
        ensures
            r is Ok ==> r->Ok_0 == BackendKind::Kafka && data_source.data_type@ == backend_label(
                BackendKind::Kafka,
            ),
            r is Err ==> (r->Err_0 is UnsupportedOperation && exists|k: BackendKind|
                is_relational(k) && data_source.data_type@ == #[trigger] backend_label(k)) || (
            r->Err_0 is UnsupportedBackend && forall|k: BackendKind|
                data_source.data_type@ != #[trigger] backend_label(k)),
    {
        match BackendKind::parse(data_source.data_type.as_str()) {
            Ok(BackendKind::Kafka) => Ok(BackendKind::Kafka),
            Ok(k) => Err(
                MetadataError::UnsupportedOperation(
                    "Topic metadata is only available for an event-stream source: ".to_owned().concat(
                        data_source.name.as_str(),
                    ),
                ),
            ),
            Err(e) => Err(e),
        }
    }

    /// Wraps a backend error with the operation and the source it concerns.
    pub fn fetch_failed(operation: &str, data_source: &DataSource, detail: &str) -> (r: MetadataError)
        ensures
            r is FetchFailed,
            r->FetchFailed_0@ == operation@ + " failed for source '"@ + data_source.name@ + "': "@
                + detail@,
    {
        MetadataError::FetchFailed(
            operation.to_owned().concat(" failed for source '").concat(data_source.name.as_str()).concat(
                "': ",
            ).concat(detail),
        )
    }

    /// The result of a list fetch from the structure fetch of each table:
    /// the first failure fails the whole list; a partial list is never
    /// returned.
    pub fn collect_tables(results: Vec<Result<TableInfo, MetadataError>>) -> (r: Result<
        Vec<TableInfo>,
        MetadataError,
    >)
        ensures
            r is Ok <==> all_fetched(results@),
            r is Ok ==> r->Ok_0.len() == results.len() && forall|i: int|
                0 <= i < results.len() ==> r->Ok_0@[i] == #[trigger] results@[i]->Ok_0,
            r is Err ==> exists|i: int|
                0 <= i < results.len() && #[trigger] results@[i] == Err::<TableInfo, MetadataError>(
                    r->Err_0,
                ) && forall|j: int| 0 <= j < i ==> #[trigger] results@[j] is Ok,
    {
        let ghost orig = results@;
        let mut rest = results;
        let mut tables: Vec<TableInfo> = Vec::new();
        let mut i: usize = 0;
        while rest.len() > 0
            invariant
                orig == results@,
                rest@ == orig.skip(i as int),
                i <= orig.len(),
                tables.len() == i,
                forall|k: int| 0 <= k < i ==> #[trigger] orig[k] is Ok && tables@[k] == orig[k]->Ok_0,
            decreases rest.len(),
        {
            assert(rest.len() == orig.len() - i);
            let next = rest.remove(0);
            assert(next == orig[i as int]);
            match next {
                Ok(t) => tables.push(t),
                Err(e) => {
                    assert(orig[i as int] == Err::<TableInfo, MetadataError>(e));
                    assert(!(orig[i as int] is Ok));
                    assert(exists|w: int|
                        0 <= w < orig.len() && #[trigger] orig[w] == Err::<TableInfo, MetadataError>(e)
                            && forall|j: int| 0 <= j < w ==> #[trigger] orig[j] is Ok);
                    return Err(e);
                },
            }
            i = tables.len();
            assert(rest@ =~= orig.skip(i as int));
        }
        assert(i == orig.len());
        Ok(tables)
    }
}

} // verus!
