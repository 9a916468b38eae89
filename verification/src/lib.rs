//! Bookkeeping for the directory in which one run of an application keeps
//! what it leaves behind: logs, reports and crash dumps.
//!
//! Every run gets a directory of its own, named after the time it started
//! and guarded by a lock file. A run that ends well deletes its directory.
//! A run that fails or is killed leaves it behind, and the next process
//! finds out from the lock file what happened, moves the directory to the
//! failed runs, keeps a bounded number of those, and bundles them into an
//! archive on request.
//!
//! The library takes the decisions and leaves the file system to its
//! caller: it is told what was found on disk and answers with what is to be
//! done.

pub mod archive;
pub mod context;
pub mod disk;
pub mod entry;
pub mod link;
pub mod lock;
pub mod names;
pub mod registry;
pub mod report;
pub mod retention;
pub mod stamp;
pub mod triage;

pub use context::init;
