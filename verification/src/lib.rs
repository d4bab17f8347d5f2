//! Bulk-download planning and accounting for a numeric range of remote text
//! files.
//!
//! The crate holds the verified core of a small downloader: parsing the
//! `--folder` / `--files` / `--threads` flags, building the request URL and
//! destination path for each identifier, classifying HTTP statuses, the
//! counter-and-permit state of the bounded-concurrency pipeline, and the
//! report lines the program prints. The driver that performs the network and
//! file I/O lives outside the verified library and feeds plain values in and
//! out of it.

pub mod args;
pub mod numerals;
pub mod pipeline;
pub mod plan;
pub mod report;
