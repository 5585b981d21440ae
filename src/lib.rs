//! An analytics query layer: compiles structured read requests into SQL over a
//! table catalog, resolves joins, fingerprints compiled queries for caching and
//! plans how backend rows are normalised.
pub mod cache;
pub mod config;
pub mod db;
pub mod db_utils;
pub mod error;
pub mod fields;
pub mod join;
pub mod models;
pub mod query_engine;
pub mod render;
pub mod text;
