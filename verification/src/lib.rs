//! Relationship-based access control: a schema of namespaces, relations and
//! permissions, and an evaluator that decides whether a subject holds an
//! action on a resource, given the relationship tuples of a store.

pub mod asking;
pub mod check;
pub mod course;
pub mod error;
pub mod laws;
pub mod monotone;
pub mod schema;
pub mod semantics;
pub mod storage;
