//! Query composition core: type-erased SELECT statements that accept
//! runtime-conditional filters, and changeset derivation for UPDATE
//! statements with a configurable null-handling policy.
pub mod sql;
pub mod schema;
pub mod fragment;
pub mod boxed;
pub mod changeset;
