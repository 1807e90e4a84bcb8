//! Decision logic for reprogramming a display to its largest supported
//! resolution and, for that resolution, the highest available refresh rate.
//!
//! The display server exposes three parallel, index-based catalogs: supported
//! screen sizes, per-size raw refresh-rate values, and low-level mode
//! descriptors. This crate holds the verified core that narrows, correlates
//! and selects over those catalogs; the calls to the server itself (opening
//! the connection, fetching the catalogs, issuing the atomic apply) are plain
//! I/O and live outside the library, handing it plain values.

pub mod connection;
pub mod error;
pub mod rates;
pub mod sizes;
