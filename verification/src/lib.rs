//! A market-data gateway library: local depth books, a normalized
//! top-of-book store, venue message parsers, quoting, routing and the
//! control decisions of the venue feeds.
pub mod book;
pub mod metrics;
pub mod types;
pub mod decimal;
pub mod json;
pub mod venue;
pub mod text;
pub mod config;
pub mod strategy;
pub mod api;
