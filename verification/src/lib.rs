//! Tiered virtual memory for WebAssembly.
pub mod alloc_laws;
pub mod allocator;
pub mod bench;
pub mod blocks;
pub mod cache;
pub mod cli;
pub mod concurrent;
pub mod counting_laws;
pub mod debug;
pub mod directory;
pub mod entry;
pub mod error;
pub mod eviction;
pub mod facade;
pub mod guest;
pub mod handle;
pub mod laws;
pub mod shared_laws;
pub mod link;
pub mod memory_region;
pub mod metrics;
pub mod prelude;
pub mod region;
pub mod remap;
pub mod rt;
pub mod slices;
pub mod text;
pub mod tier_laws;
pub mod tiers;

pub use allocator::{AllocatorKind, BumpAllocator, FreelistAllocator, RegionAllocator, SlabAllocator};
pub use cache::{FastHit, ResolveCache, ResolveHit};
pub use concurrent::ConcurrentDirectory;
pub use debug::{dump_region_layout, fault_counts, validate_handle, validate_handles, HandleStatus};
pub use directory::RegionDirectory;
pub use entry::RegionEntry;
pub use error::{set_last_error_context, take_last_error_context, ErrorContext, TvmError};
pub use eviction::{EvictionPolicy, EvictionReport, WithinTier};
pub use facade::{TvmFacade, TvmSpill};
pub use handle::Handle;
pub use memory_region::{BackingStore, MemoryRegion, VecBackedRegion};
pub use metrics::{MetricsSnapshot, RegionMetrics};
pub use region::{PlacementPolicy, Region, RegionKind, Residency};
pub use remap::HandleRemap;
