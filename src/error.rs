//! Failures that surface to the caller.
use vstd::prelude::*;

verus! {

/// Why an operation failed. Each variant carries a description of the
/// operation and source involved.
#[derive(Clone, Debug, PartialEq)]
pub enum MetadataError {
    /// The connector could not reach or authenticate with the backend.
    ConnectionError(String),
    /// The data source names a backend kind that is not known.
    UnsupportedBackend(String),
    /// The backend kind does not offer the requested operation.
    UnsupportedOperation(String),
    /// The backend answered a fetch with an error.
    FetchFailed(String),
    /// The schema registry could not be reached or gave no subject list.
    RegistryUnavailable(String),
    /// A fetched value could not be encoded for the cache.
    SerializationError(String),
    /// The requested item does not exist.
    NotFound(String),
    /// The persistent store failed.
    StoreError(String),
}

impl MetadataError {
    /// The description carried by the error.
    pub fn message(&self) -> (r: &String)
        ensures
            r == match self {
                MetadataError::ConnectionError(m) => m,
                MetadataError::UnsupportedBackend(m) => m,
                MetadataError::UnsupportedOperation(m) => m,
                MetadataError::FetchFailed(m) => m,
                MetadataError::RegistryUnavailable(m) => m,
                MetadataError::SerializationError(m) => m,
                MetadataError::NotFound(m) => m,
                MetadataError::StoreError(m) => m,
            },
    {
        match self {
            MetadataError::ConnectionError(m) => m,
            MetadataError::UnsupportedBackend(m) => m,
            MetadataError::UnsupportedOperation(m) => m,
            MetadataError::FetchFailed(m) => m,
            MetadataError::RegistryUnavailable(m) => m,
            MetadataError::SerializationError(m) => m,
            MetadataError::NotFound(m) => m,
            MetadataError::StoreError(m) => m,
        }
    }
}

} // verus!
