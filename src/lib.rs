//! Replication and resampling of per-pool time-series metrics.
//!
//! The library holds the logic of the service: the catalog of named
//! intervals, validation and planning of read queries, the bucketing of
//! hourly samples into coarser intervals, pagination and page summaries,
//! the decisions of the backfill loop, and the records of the upstream feed.
//! Storage, HTTP and the clock-driven scheduler live outside it and hand it
//! plain values.

pub mod bucket;
pub mod depth_feed;
pub mod earnings_feed;
pub mod error;
pub mod ingest;
pub mod interval;
pub mod page;
pub mod parse;
pub mod query;
pub mod rune_pool_feed;
pub mod swap_feed;
pub mod sync;
pub mod text;
