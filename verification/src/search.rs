use vstd::prelude::*;

use crate::entities::entry::Entry;
use crate::entities::ident::Uuid;

verus! {

/// The projection of an entry that is sent to the full-text index: uuid,
/// title, content and owner, nothing else. The index document is never the
/// source of truth; the store stays authoritative.
#[derive(Debug, PartialEq)]
pub struct IndexedEntry {
    pub uuid: Uuid,
    pub title: String,
    pub content: String,
    pub owner_uuid: Uuid,
}

impl Clone for IndexedEntry {
    fn clone(&self) -> (r: IndexedEntry)
        ensures
            r == *self,
    {
        IndexedEntry {
            uuid: self.uuid,
            title: self.title.clone(),
            content: self.content.clone(),
            owner_uuid: self.owner_uuid,
        }
    }
}

impl IndexedEntry {
    /// Projects an entry for indexing. The projected fields must be present:
    /// an entry without uuid, owner or content is never handed to the index.
    pub fn from_entry(entry: &Entry) -> (r: IndexedEntry)
        requires
            entry.uuid is Some,
            entry.owner is Some,
            entry.content is Some,
        ensures
            Some(r.uuid) == entry.uuid,
            r.title == entry.title,
            Some(r.content) == entry.content,
            Some(r.owner_uuid) == entry.owner,
    {
        let uuid = match &entry.uuid {
            Some(u) => *u,
            None => unreached(),
        };
        let owner_uuid = match &entry.owner {
            Some(u) => *u,
            None => unreached(),
        };
        let content = match &entry.content {
            Some(c) => c.clone(),
            None => unreached(),
        };
        IndexedEntry { uuid, title: entry.title.clone(), content, owner_uuid }
    }

    /// The document key under which the projection is upserted.
    pub fn get_uid(&self) -> (r: Uuid)
        ensures
            r == self.uuid,
    {
        self.uuid
    }
}

} // verus!
