//! Extraction of the stops and stop-times of one area from a GTFS static feed.
//!
//! The verified parts are the GTFS clock-value lexer, parser and formatter,
//! the two-phase stop filter and stop-time join, and the decisions around
//! fetching the feed (endpoint, status, cache-validation metadata, quota).
pub mod clock;
pub mod types;
pub mod schedule;
pub mod configs;
pub mod fetch;
pub mod pipeline;
