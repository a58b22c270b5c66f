//! A minimal query engine for equi-joins of two CSV sources.
//!
//! A command such as `SELECT * FROM a.csv, b.csv HASHJOIN inner in_memory`
//! is parsed into a [`query::ast::SelectQuery`], a join strategy is chosen by
//! name, and the in-memory hash join builds one keyed table per source,
//! probes them by key and emits the projected rows as CSV text.

pub mod text;
pub mod query;
pub mod storage;
pub mod hashjoin;
pub mod operator;
