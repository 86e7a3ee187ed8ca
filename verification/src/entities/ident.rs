use vstd::prelude::*;

verus! {

/// A universally unique identifier, carried as its 128-bit value.
///
/// Identifiers are assigned by the storage backends; the domain layer only
/// ever compares them for equality and passes them along.
#[derive(Clone, Copy, Debug, PartialEq, Eq, Hash, Structural)]
pub struct Uuid {
    pub value: u128,
}

impl Uuid {
    pub fn new(value: u128) -> (r: Uuid)
        ensures
            r.value == value,
    {
        Uuid { value }
    }
}

} // verus!
