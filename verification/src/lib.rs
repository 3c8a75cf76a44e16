//! An in-memory, column-oriented table store.
//!
//! A [`table::Table`] owns an ordered sequence of named, typed
//! [`column::Column`]s that share a common row index.  Columns of the
//! synthetic types `serial` and `uuid_v4` generate their own values; plain
//! `string` and `int` columns store caller-supplied values after a type
//! check.  The table enforces three invariants: all columns have equal
//! length, at most one column is the primary key, and a `serial` column
//! always reads `1, 2, ..., N` from top to bottom.

pub mod column;
pub mod registry;
pub mod render;
pub mod table;
pub mod text;
pub mod types;
