//! The to-do entry itself and the store's sole error.

use vstd::prelude::*;

verus! {

/// One to-do entry: a unique identifier assigned by the store, a free-form
/// description supplied at creation, and a completion flag.
#[derive(Debug, PartialEq)]
pub struct Item {
    pub id: u32,
    pub description: String,
    pub done: bool,
}

impl Clone for Item {
    fn clone(&self) -> (res: Self)
        ensures
            res == *self,
    {
        Item { id: self.id, description: self.description.clone(), done: self.done }
    }
}

/// The sole domain error: no item in the store carries the requested
/// identifier. It keeps that exact identifier so callers can report it.
#[derive(Debug, Clone, Copy, PartialEq, Eq, Structural)]
pub struct NotFound {
    pub id: u32,
}

impl NotFound {
    /// The error text that accompanies a missing identifier.
    pub fn message(&self) -> (r: String)
        ensures
            r@ == "todo not found"@,
    {
        String::from_str("todo not found")
    }
}

} // verus!
