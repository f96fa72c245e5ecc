//! An append-only store for the frontend log stream: per-day files with
//! size-triggered rotation, count-based retention, listing, tail reads and
//! clearing. The decisions live here and are verified; the file system is
//! driven by the caller.

use vstd::prelude::*;

pub mod append;
pub mod clock;
pub mod config;
pub mod entry;
pub mod error;
pub mod listing;
pub mod naming;
pub mod order;
pub mod paths;
pub mod policy;
pub mod tail;

verus! {

} // verus!
