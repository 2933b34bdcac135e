//! Duplicate detection for streams of records.
//!
//! A [`Filter`] is shown the records of a stream one by one and tells, for
//! each, whether it is new or a repeat. Four strategies trade accuracy for
//! memory: [`SimpleFilter`] compares whole records, [`QuickFilter`] their
//! digests, [`SortedFilter`] only neighbours, and [`CompactFilter`] asks a
//! scalable Bloom filter. [`driver`] decides what a run does with each record
//! and [`statistics`] counts them; [`laws`] states what holds of every filter.

pub mod digest;
pub mod driver;
pub mod filters;
pub mod laws;
pub mod options;
pub mod statistics;
pub mod text;

pub use filters::compact::CompactFilter;
pub use filters::quick::QuickFilter;
pub use filters::simple::SimpleFilter;
pub use filters::sorted::SortedFilter;
pub use filters::{AnyFilter, Filter, Filters};
