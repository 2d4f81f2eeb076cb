//! An in-memory catalogue of products and categories.
//!
//! Each store owns an ordered collection of records keyed by a 128-bit
//! identifier. The stores assign identifiers and timestamps on creation,
//! overwrite selected fields on update, and keep their records in the order in
//! which they were created.

pub mod models;
pub mod keys;
mod clock;
pub mod products;
pub mod categories;
pub mod responses;
pub mod laws;
