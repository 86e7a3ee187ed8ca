use vstd::prelude::*;

use crate::storage::error::{SearchEngineError, StorageError};

verus! {

/// A domain-level failure: a backend failure carried upward unchanged, so the
/// boundary layer can map every kind to its generic internal-failure answer.
/// Nothing is retried anywhere in this layer.
#[derive(Clone, Debug, PartialEq)]
pub enum MemorizDomainError {
    Storage(StorageError),
    SearchEngine(SearchEngineError),
}

pub type EntryDomainResult<T> = Result<T, MemorizDomainError>;

} // verus!
