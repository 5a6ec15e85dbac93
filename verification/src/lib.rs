//! A read-only analytics gateway over local SQLite, DuckDB and Parquet files: its
//! configuration, its policy on SQL, the way its workers are set up and its logical views
//! compiled, its answers, and the commands that manage it.
//!
//! Everything that decides or computes is here, with contracts over mathematical models; the
//! program around it talks to files, processes, the network and DuckDB.
pub mod client;
pub mod columns;
pub mod commands;
pub mod config;
pub mod daemon;
pub mod defect;
pub mod documents;
pub mod encoding;
pub mod engine;
pub mod json;
pub mod numeral;
pub mod order;
pub mod output;
pub mod pool;
pub mod query;
pub mod quote;
pub mod registry;
pub mod server;
pub mod sources;
pub mod sql;
pub mod text;
pub mod transaction;
pub mod validate;
pub mod value;
pub mod views;
