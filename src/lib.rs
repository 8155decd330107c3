//! Inventory of telecom circuit records, with a bulk CSV import whose progress
//! is reported through an append-only log of import reports.
//!
//! The library holds the decisions: how an upload is screened, how each CSV row
//! becomes a create or an update, how failures are counted and reported, and how
//! the report log answers its readers. An import run hands out one action at a
//! time, so a caller can carry it out against any store; in-memory stores for
//! records and reports come with the library. HTTP stays with the caller.

pub mod model;
pub mod reports;
pub mod rows;
pub mod store;
pub mod text;
pub mod import;
pub mod web;
