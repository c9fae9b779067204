//! Finds build-artifact directories of a dependency-manager project tree and
//! lets an operator purge them selectively.
//!
//! The library holds the concurrency core and the pure decision logic:
//! a reader-writer lock that fires a change notification on every exclusive
//! release ([`notify_rw_lock`]), the shared scan/delete progress counter
//! ([`progress`]), the scan scheduler's classification and accounting
//! ([`scan`]), the project analyzer's aggregation and the sorted result list
//! ([`analysis`]), and the delete pass ([`delete`]).
//!
//! Terminal rendering, key handling, filesystem walking and process spawning
//! are plumbing around this core and live outside the library.

use vstd::prelude::*;

pub mod analysis;
pub mod delete;
pub mod notify_rw_lock;
pub mod progress;
pub mod scan;

pub use analysis::ProjectTargetAnalysis;
pub use progress::Progress;

verus! {

/// Number of bytes in one GiB; used by callers to render sizes.
pub const GIB_SIZE: u64 = 1024 * 1024 * 1024;

} // verus!
