//! Scrapers of the target's own metrics.

pub mod expvar;
