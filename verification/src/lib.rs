//! Persistence layer of a desktop time-tracking application.
//!
//! Categories and time-tracking sessions ("timers") live in a single
//! embedded SQLite file. This crate owns the schema migration engine,
//! the category and timer stores, and the aggregation query builder.
//! The semantics of every operation is stated against an in-memory
//! model of the database state (`model`), and the SQL texts that the
//! stores execute are fixed by verified builders (`sql`).

pub mod db;
pub mod error;
pub mod init;
pub mod laws;
pub mod model;
pub mod sql;
pub mod state;
