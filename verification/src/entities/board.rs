use vstd::prelude::*;

use crate::entities::ident::Uuid;

verus! {

/// A named group of entries, owned by a single user.
///
/// Identity (`uuid`) and timestamps are assigned by the storage backend, never
/// by the caller: a freshly constructed board carries `None` there until the
/// backend persists it. Timestamps are microseconds since the Unix epoch.
/// The free-form payload (`data`) is carried as JSON text; the domain never
/// looks inside it.
#[derive(Debug, PartialEq)]
pub struct Board {
    pub uuid: Option<Uuid>,
    pub title: String,
    pub data: Option<String>,
    pub color: Option<String>,
    pub created_on: Option<i64>,
    pub updated_on: Option<i64>,
    pub owner: Option<Uuid>,
}

impl Clone for Board {
    fn clone(&self) -> (r: Board)
        ensures
            r == *self,
    {
        Board {
            uuid: self.uuid,
            title: self.title.clone(),
            data: match &self.data {
                Some(s) => Some(s.clone()),
                None => None,
            },
            color: match &self.color {
                Some(s) => Some(s.clone()),
                None => None,
            },
            created_on: self.created_on,
            updated_on: self.updated_on,
            owner: self.owner,
        }
    }
}

impl Board {
    pub fn new(
        uuid: Option<Uuid>,
        title: String,
        data: Option<String>,
        color: Option<String>,
        created_on: Option<i64>,
        updated_on: Option<i64>,
        owner: Option<Uuid>,
    ) -> (r: Board)
        ensures
            r == (Board { uuid, title, data, color, created_on, updated_on, owner }),
    {
        Board { uuid, title, data, color, created_on, updated_on, owner }
    }
}

} // verus!
