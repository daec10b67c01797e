//! A verified core for a single-resource JSON CRUD service over employee
//! records: the record model, the row-store semantics, the per-request
//! handler logic, and the route matching, each with a full contract.

pub mod handlers;
pub mod json;
pub mod laws;
pub mod models;
pub mod router;
pub mod store;
