//! Streaming asset table: versioned, reference-counted slots whose counts and
//! payload swaps are queued by any thread and applied by the owning thread once
//! per frame.

pub mod handle;
pub mod holder;
pub mod laws;
pub mod model;
pub mod path_cache;
pub mod queues;
pub mod server;
pub mod text;
pub mod ui;

use vstd::prelude::*;

verus! {

/// Raw identifier of one asset slot. Ids start at 1; 0 never names a slot.
pub type HandleId = u64;

/// Marker for the types that a table may hold as payloads.
pub trait Asset {
}

} // verus!
