//! Incremental build-file sync engine.
//!
//! Each run scans a build tree, detects files modified since the per-device
//! watermark, resolves each changed file to its path on the target device by
//! searching a package-mirror tree, decides whether to push, and advances the
//! persisted watermark only after a successful push (or to record a first-run
//! baseline). The surrounding binary performs the filesystem walks, the
//! interactive confirmation and the device-agent calls; this crate holds the
//! decisions and the state.

use vstd::prelude::*;

pub mod machine;
pub mod records;
pub mod resolve;
pub mod scan;
pub mod time;

verus! {

/// Why a run must abort. Nothing is retried: every failure is surfaced with
/// enough context (the file involved) for the operator to re-run by hand.
#[derive(Debug)]
pub enum SyncError {
    /// The persisted record data could not be understood: a watermark that is
    /// not a valid RFC 3339 date-time, or two records for one device.
    CorruptRecord,
    /// A build file's base name matched more than one location in the package
    /// mirror, so its device path is ambiguous. Holds the base name.
    AmbiguousDevicePath(Vec<u8>),
    /// The device agent failed to remount the device filesystem read-write.
    RemountFailed,
    /// The device agent failed to transfer a file. Holds the build file path.
    TransferFailed(Vec<u8>),
}

} // verus!
