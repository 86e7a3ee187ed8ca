use vstd::prelude::*;

use crate::entities::ident::Uuid;

verus! {

/// A tag that can be attached to entries. Labels are declared by the storage
/// capability but no backend implements them yet.
#[derive(Debug, PartialEq)]
pub struct Label {
    pub id: String,
    pub name: String,
    pub description: String,
    pub owner: Uuid,
}

impl Clone for Label {
    fn clone(&self) -> (r: Label)
        ensures
            r == *self,
    {
        Label {
            id: self.id.clone(),
            name: self.name.clone(),
            description: self.description.clone(),
            owner: self.owner,
        }
    }
}

impl Label {
    pub fn new(id: String, name: String, description: String, owner: Uuid) -> (r: Label)
        ensures
            r.id == id,
            r.name == name,
            r.description == description,
            r.owner == owner,
    {
        Label { id, name, description, owner }
    }
}

} // verus!
