use vstd::prelude::*;

verus! {

/// The failure taxonomy of the storage capability.
///
/// A point lookup that matches nothing is `RecordNotFound`, which is distinct
/// from an empty listing (not an error) and from every other failure kind.
/// `NotImplemented` is the legitimate terminal answer of a stub capability
/// method; callers must treat it as a first-class failure, not a crash.
#[derive(Clone, Debug, PartialEq)]
pub enum StorageError {
    /// A point lookup matched no record.
    RecordNotFound,
    /// The backend could not create the record.
    CreationImpossible,
    /// The capability method is a stub in this backend.
    NotImplemented,
    /// An input/output failure underneath the backend.
    Io(String),
    /// A record could not be serialized for storage.
    Serialization(String),
    /// The backend engine rejected the operation; the text is its message.
    Backend(String),
}

pub type StorageResult<T> = Result<T, StorageError>;

/// The failure taxonomy of the search capability. A transport or service
/// failure must propagate distinctly from "zero matches".
#[derive(Clone, Debug, PartialEq)]
pub enum SearchEngineError {
    /// The capability method is a stub in this backend.
    NotImplemented,
    /// A transport, authentication or query failure of the index service.
    Service(String),
}

pub type SearchEngineResult<T> = Result<T, SearchEngineError>;

} // verus!
