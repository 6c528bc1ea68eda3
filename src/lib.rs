//! A typed asset cache with deferred reference counting.
//!
//! Handles announce their creation and destruction on a channel; the storage
//! reconciles those announcements once per tick and evicts assets whose last
//! handle is gone.
use vstd::prelude::*;

pub mod asset_loader;
pub mod asset_storage;
pub mod channel;
pub mod common;
pub mod glyph;
pub mod handle;
pub mod input;
pub mod lighting;
pub mod liveness;
pub mod manager;
pub mod stages;

verus! {

/// Marker for data that can be held in an asset storage.
pub trait Asset: Send + Sync + 'static {
}

impl Asset for String {
}

} // verus!
