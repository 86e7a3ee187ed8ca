use vstd::prelude::*;

use crate::entities::ident::Uuid;
use crate::entities::label::Label;

verus! {

/// A note. Its identity is dual: a store-assigned sequential `id` used for
/// row-level targeting, and a public `uuid` used in all external references.
///
/// `owner` identifies the user the entry belongs to; every storage operation
/// is scoped by it. `archived` is a soft flag: archived entries stay
/// retrievable. `board` is a weak reference to a `Board`; `None` means the
/// entry is unfiled. Timestamps are microseconds since the Unix epoch and are
/// assigned by the backend. The free-form payload (`data`) is JSON text that
/// the domain carries through untouched.
#[derive(Debug, PartialEq)]
pub struct Entry {
    pub id: i32,
    pub uuid: Option<Uuid>,
    pub title: String,
    pub content: Option<String>,
    pub data: Option<String>,
    pub color: Option<String>,
    pub archived: bool,
    pub created_on: Option<i64>,
    pub updated_on: Option<i64>,
    pub owner: Option<Uuid>,
    pub labels: Option<Vec<Label>>,
    pub board: Option<Uuid>,
}

impl Clone for Entry {
    fn clone(&self) -> (r: Entry)
        ensures
            r.id == self.id,
            r.uuid == self.uuid,
            r.title == self.title,
            r.content == self.content,
            r.data == self.data,
            r.color == self.color,
            r.archived == self.archived,
            r.created_on == self.created_on,
            r.updated_on == self.updated_on,
            r.owner == self.owner,
            r.board == self.board,
            self.labels is None ==> r == *self,
    {
        Entry {
            id: self.id,
            uuid: self.uuid,
            title: self.title.clone(),
            content: match &self.content {
                Some(s) => Some(s.clone()),
                None => None,
            },
            data: match &self.data {
                Some(s) => Some(s.clone()),
                None => None,
            },
            color: match &self.color {
                Some(s) => Some(s.clone()),
                None => None,
            },
            archived: self.archived,
            created_on: self.created_on,
            updated_on: self.updated_on,
            owner: self.owner,
            labels: match &self.labels {
                Some(v) => Some(v.clone()),
                None => None,
            },
            board: self.board,
        }
    }
}

impl Entry {
    pub fn new(
        id: i32,
        uuid: Option<Uuid>,
        title: String,
        content: Option<String>,
        data: Option<String>,
        color: Option<String>,
        archived: bool,
        created_on: Option<i64>,
        updated_on: Option<i64>,
        owner: Option<Uuid>,
        labels: Option<Vec<Label>>,
        board: Option<Uuid>,
    ) -> (r: Entry)
        ensures
            r == (Entry {
                id,
                uuid,
                title,
                content,
                data,
                color,
                archived,
                created_on,
                updated_on,
                owner,
                labels,
                board,
            }),
    {
        Entry {
            id,
            uuid,
            title,
            content,
            data,
            color,
            archived,
            created_on,
            updated_on,
            owner,
            labels,
            board,
        }
    }
}

} // verus!
