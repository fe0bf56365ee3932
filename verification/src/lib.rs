//! An in-memory record store for user records, with a verified contract for
//! each operation: list, find, insert, update and delete.
//!
//! The store models the data layer of a small user-management service.  Each
//! record carries an `id` (the logical key), a `name` and an `email`.  The
//! operations scan the collection in insertion order and act on the first
//! record whose `id` matches.

pub mod model;
pub mod store;
pub mod laws;
