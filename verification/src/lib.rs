//! Disk inspection and block-level I/O benchmarking.
//!
//! The crate classifies block devices (SSD, HDD, NVMe, USB), resolves a
//! disk's ATA link, parses kernel block-device statistics, models SMART
//! health attributes, and plans timed read/write benchmarks over a mounted
//! path. All device and file I/O is left to the caller: the functions here
//! take the bytes that were read (sysfs contents, the mount table, decoded
//! attribute records) as plain values and are verified over them.

use vstd::prelude::*;

pub mod ata;
pub mod attribute;
pub mod benchmark;
pub mod config;
pub mod convert;
pub mod disk;
pub mod kind;
pub mod smart;
pub mod snapshot;
pub mod sysfs;
pub mod theme;
pub mod text;

verus! {

/// Errors of the library, by origin.
#[derive(Clone, Copy, PartialEq, Eq, Structural, Debug)]
pub enum DiskError {
    /// No mount, no ATA link, or a missing entry.
    NotFound,
    /// A native diagnostics call reported an error status.
    ForeignCallFailure,
    /// An open/read/write/seek failure.
    IoFailure,
    /// Malformed sysfs content or a non-text native string.
    ParseFailure,
}

} // verus!
