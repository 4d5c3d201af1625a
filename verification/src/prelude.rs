//! The everyday names of the library.
pub use crate::allocator::AllocatorKind;
pub use crate::error::{set_last_error_context, take_last_error_context, ErrorContext, TvmError};
pub use crate::handle::Handle;
pub use crate::memory_region::{BackingStore, VecBackedRegion};
pub use crate::region::{PlacementPolicy, Region, RegionKind, Residency};
