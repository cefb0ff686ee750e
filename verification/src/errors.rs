//! Structured errors for store operations and for boundary misuse.

use vstd::prelude::*;

verus! {

/// Why a store operation could not be carried out.
#[derive(Debug, Clone, Copy, PartialEq, Eq, Structural)]
pub enum StoreError {
    /// A freshly drawn UUID collided with the UUID of an item already stored.
    UuidConflict,
    /// An update named a store identifier that no stored item carries.
    ItemNotFound,
}

/// Why a boundary release request was refused.
#[derive(Debug, Clone, Copy, PartialEq, Eq, Structural)]
pub enum BoundaryError {
    /// The value was already released; a second release is a double free.
    AlreadyReleased,
}

impl StoreError {
    /// A short text for the caller's side of the boundary.
    pub fn message(&self) -> (r: &'static str)
        ensures
            *self == StoreError::UuidConflict ==> r@ == "a drawn uuid is already in use"@,
            *self == StoreError::ItemNotFound ==> r@ == "no stored item carries this id"@,
    {
        match self {
            StoreError::UuidConflict => "a drawn uuid is already in use",
            StoreError::ItemNotFound => "no stored item carries this id",
        }
    }
}

} // verus!
