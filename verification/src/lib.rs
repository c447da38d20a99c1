//! Verified core of a CSV to Parquet / Delta Lake converter.
//!
//! The library turns CSV bytes into typed columnar tables, plans single-file
//! and partitioned outputs, computes per-column statistics, builds the
//! contents and JSON documents of a Delta Lake transaction log, counts
//! pattern matches for the query benchmark, and generates unique mock
//! records.  Reading and writing files, Arrow/Parquet encoding and turning
//! the log documents into JSON text live in the application.

pub mod text;
pub mod error;
pub mod csv_input;
pub mod table;
pub mod partition;
pub mod stats;
pub mod delta_log;
pub mod log_json;
pub mod convert;
pub mod query;
pub mod mock;
