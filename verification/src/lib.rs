//! Verified core of PaneDeck, a dual-pane file organiser.
//!
//! Native paths never leave the core in serialisable form: the UI only
//! receives opaque references, which a server-owned directory session turns
//! back into paths. File operations are planned against a read-only snapshot
//! of the disk, revalidated before they run, and scheduled through a bounded
//! job queue.

pub mod browser;
pub mod copy;
pub mod entry;
pub mod error;
pub mod id;
pub mod ipc;
pub mod locations;
pub mod path;
pub mod plan;
pub mod platform;
pub mod probe;
pub mod queue;
pub mod reader;
pub mod move_operation;
pub mod mutation;
pub mod session;
pub mod throttle;
pub mod trash;
pub mod watcher;

use vstd::prelude::*;

verus! {

/// Stable product name shared by outer application layers.
pub const PRODUCT_NAME: &'static str = "PaneDeck";

/// Returns the stable product name.
pub fn product_name() -> (name: &'static str)
    ensures
        name@ == PRODUCT_NAME@,
{
    PRODUCT_NAME
}

/// Marker for the platform-independent domain layer.
#[derive(Clone, Copy, Debug, Default, PartialEq, Eq)]
pub struct DomainLayer;

/// Composition marker for file-system services.
#[derive(Clone, Copy, Debug, Default)]
pub struct FileSystemLayer {
    domain: DomainLayer,
}

/// Composition marker for background job services.
#[derive(Clone, Copy, Debug, Default)]
pub struct JobsLayer {
    domain: DomainLayer,
    file_system: FileSystemLayer,
}

/// Composition marker for platform adapters.
#[derive(Clone, Copy, Debug, Default)]
pub struct PlatformLayer {
    domain: DomainLayer,
    file_system: FileSystemLayer,
}

} // verus!
