//! Near-earth-object records: date handling, feed normalization and the
//! read-through cache that fills a local table from a remote feed.

pub mod date;
pub mod text;
pub mod json;
pub mod error;
pub mod neo;
pub mod normalize;
pub mod reconcile;
pub mod cache_fill;
