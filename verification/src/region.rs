//! Region metadata: what a region is for, where its bytes live, and what its
//! placement policy allows.
use vstd::prelude::*;

verus! {

/// Where a region's bytes currently live.
#[derive(Clone, Copy, Debug, PartialEq, Eq, Structural)]
pub enum Residency {
    Hot,
    Warm,
    Cold,
    External,
}

/// What a region is used for.
#[derive(Clone, Copy, Debug, PartialEq, Eq, Structural)]
pub enum RegionKind {
    HotHeap,
    ObjectArena,
    BlobArena,
    PageStore,
    Scratch,
    DeviceState,
    CodeCache,
}

/// Metadata of one region.
#[derive(Clone, Copy, Debug, PartialEq, Eq, Structural)]
pub struct Region {
    pub id: u16,
    pub generation: u16,
    pub capacity: u32,
    pub used: u32,
    pub kind: RegionKind,
    pub residency: Residency,
    pub pinned: bool,
    pub pinnable: bool,
    pub spillable: bool,
}

/// What may be done with a region, and where it starts out.
#[derive(Clone, Copy, Debug, PartialEq, Eq, Structural)]
pub struct PlacementPolicy {
    pub initial_residency: Residency,
    pub pinnable: bool,
    pub spillable: bool,
}

/// The default policy of each kind of region.
pub open spec fn policy_of(kind: RegionKind) -> PlacementPolicy {
    PlacementPolicy {
        initial_residency: if kind == RegionKind::PageStore {
            Residency::Warm
        } else {
            Residency::Hot
        },
        pinnable: kind == RegionKind::HotHeap || kind == RegionKind::CodeCache || kind
            == RegionKind::DeviceState,
        spillable: kind == RegionKind::ObjectArena || kind == RegionKind::BlobArena || kind
            == RegionKind::PageStore,
    }
}

impl PlacementPolicy {
    pub fn for_kind(kind: RegionKind) -> (r: Self)
        ensures
            r == policy_of(kind),
    {
        match kind {
            RegionKind::HotHeap | RegionKind::CodeCache | RegionKind::DeviceState => PlacementPolicy {
                initial_residency: Residency::Hot,
                pinnable: true,
                spillable: false,
            },
            RegionKind::ObjectArena | RegionKind::BlobArena => PlacementPolicy {
                initial_residency: Residency::Hot,
                pinnable: false,
                spillable: true,
            },
            RegionKind::PageStore => PlacementPolicy {
                initial_residency: Residency::Warm,
                pinnable: false,
                spillable: true,
            },
            RegionKind::Scratch => PlacementPolicy {
                initial_residency: Residency::Hot,
                pinnable: false,
                spillable: false,
            },
        }
    }
}

/// No default policy lets a region be both pinned and spilled.
pub proof fn law_policy_pin_spill_exclusive(kind: RegionKind)
    ensures
        !(policy_of(kind).pinnable && policy_of(kind).spillable),
{
}

/// The generation that follows `g`: wraps around, and skips zero.
pub open spec fn next_generation(g: u16) -> u16 {
    if g == u16::MAX {
        1
    } else {
        (g + 1) as u16
    }
}

/// Advances a generation; zero is never produced.
pub fn advance_generation(g: u16) -> (r: u16)
    ensures
        r == next_generation(g),
{
    let next: u16 = g.wrapping_add(1);
    if next == 0 {
        1
    } else {
        next
    }
}

/// A generation is never followed by itself nor by zero, so a handle issued
/// before the step is stale after it.
pub proof fn law_next_generation(g: u16)
    ensures
        next_generation(g) != g,
        next_generation(g) != 0,
        g < u16::MAX ==> next_generation(g) == g + 1,
{
}

} // verus!
