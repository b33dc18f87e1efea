//! Decoding of SQLite's on-disk record encoding into typed column values,
//! and a small tree of pull-based physical query operators (scan, projection,
//! equi hash join) over the decoded rows.

pub mod column_value;
pub mod error;
pub mod exec;
pub mod join;
pub mod key;
pub mod physical_expr;
pub mod record;
