//! An in-memory to-do item store.
//!
//! The store holds an ordered collection of items, each with a unique
//! identifier, a free-form description and a completion flag. It offers four
//! operations: list all items, fetch one by identifier, create a new item
//! (the identifier is allocated as one more than the largest identifier
//! present), and toggle an item's completion flag in place. Fetching or
//! toggling an absent identifier yields the store's sole error, which carries
//! the identifier that was asked for.

pub mod item;
pub mod store;
