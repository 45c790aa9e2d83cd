//! A read-through cache of picture-of-the-day records keyed by date: which
//! date ranges are missing from the store, the upstream rate-limit budget,
//! the bounded fan-out of fetches and the sorted merge of the results.

pub mod apod;
pub mod config;
pub mod date;
pub mod gaps;
pub mod handlers;
pub mod merge;
pub mod rate_limit;
pub mod resolve;
