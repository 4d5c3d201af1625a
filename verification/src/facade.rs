//! The operations that make sense in every deployment, on the host or inside a guest.
use vstd::prelude::*;
use crate::error::TvmError;
use crate::eviction::resident;
use crate::handle::Handle;
use crate::region::{policy_of, Region, RegionKind, Residency};

verus! {

/// An access of `len` bytes through the handle cannot be served: its region is
/// unknown, the handle is stale, the region is not resident, or the bytes do not
/// all lie inside it.
pub open spec fn access_refused(info: Option<Region>, h: Handle, len: nat) -> bool {
    match info {
        None => true,
        Some(m) => m.generation != h.generation || !resident(m.residency) || h.offset + len
            > m.capacity,
    }
}

/// The error of such an access. Of a region that is not resident either the
/// residency or the bounds may be looked at first.
pub open spec fn access_error(info: Option<Region>, h: Handle, len: nat, e: TvmError) -> bool {
    match info {
        None => e == TvmError::RegionNotFound(h.region_id),
        Some(m) => if m.generation != h.generation {
            e == TvmError::StaleHandle
        } else {
            ||| e == TvmError::OutOfBounds && h.offset + len > m.capacity
            ||| e == TvmError::NotResident && !resident(m.residency)
        },
    }
}

/// Region management that code can be written against without knowing where
/// the bytes live.
pub trait TvmFacade: Sized {
    /// The value is in a state in which it can be used.
    open spec fn usable(&self) -> bool {
        true
    }

    /// The metadata of a region, if there is one of this id.
    open spec fn info(&self, region: u16) -> Option<Region> {
        None
    }

    /// Creates a region with the default policy and allocator. It gets an id that
    /// no region has, starts unpinned and unused at generation one, and leaves the
    /// other regions alone.
    fn create_region(&mut self, kind: RegionKind, capacity: u32) -> (r: Result<u16, TvmError>)
        requires
            old(self).usable(),
        ensures
            final(self).usable(),
            match r {
                Ok(id) => {
                    &&& old(self).info(id) is None
                    &&& final(self).info(id) matches Some(m) && m.id == id && m.kind == kind
                        && m.capacity == capacity && m.used == 0 && m.generation == 1 && !m.pinned
                        && m.residency == policy_of(kind).initial_residency && m.pinnable
                        == policy_of(kind).pinnable
                    &&& forall|k: u16| k != id ==> #[trigger] final(self).info(k) == old(self).info(k)
                },
                Err(_) => forall|k: u16| #[trigger] final(self).info(k) == old(self).info(k),
            },
    ;

    /// Allocates `size` bytes in a region. The handle is current and its bytes lie
    /// inside the region, of which only the bytes in use change.
    fn allocate(&mut self, region: u16, size: u32) -> (r: Result<Handle, TvmError>)
        requires
            old(self).usable(),
        ensures
            final(self).usable(),
            forall|k: u16| k != region ==> #[trigger] final(self).info(k) == old(self).info(k),
            match old(self).info(region) {
                None => r == Err::<Handle, TvmError>(TvmError::RegionNotFound(region))
                    && final(self).info(region) is None,
                Some(m) => match r {
                    Ok(h) => {
                        &&& h.region_id == region
                        &&& h.generation == m.generation
                        &&& h.offset + size <= m.capacity
                        &&& final(self).info(region) matches Some(n) && n == (Region {
                            used: n.used,
                            ..m
                        }) && m.used <= n.used <= m.capacity
                    },
                    Err(_) => final(self).info(region) == Some(m),
                },
            },
    ;

    /// Gives an allocation back. The handle must be current; only the bytes in use
    /// of its region change.
    fn dealloc(&mut self, handle: Handle) -> (r: Result<(), TvmError>)
        requires
            old(self).usable(),
        ensures
            final(self).usable(),
            forall|k: u16| k != handle.region_id ==> #[trigger] final(self).info(k) == old(self).info(k),
            match old(self).info(handle.region_id) {
                None => {
                    &&& r == Err::<(), TvmError>(TvmError::RegionNotFound(handle.region_id))
                    &&& final(self).info(handle.region_id) is None
                },
                Some(m) => {
                    &&& m.generation != handle.generation ==> r == Err::<(), TvmError>(
                        TvmError::StaleHandle,
                    )
                    &&& match r {
                        Ok(_) => final(self).info(handle.region_id) matches Some(n) && n == (Region {
                            used: n.used,
                            ..m
                        }) && n.used <= m.used,
                        Err(_) => final(self).info(handle.region_id) == Some(m),
                    }
                },
            },
    ;

    /// Reads into `buf`; checks generation and bounds. An access that cannot be
    /// served leaves the buffer alone.
    fn read(&mut self, handle: Handle, buf: &mut [u8]) -> (r: Result<(), TvmError>)
        requires
            old(self).usable(),
        ensures
            final(self).usable(),
            forall|k: u16| #[trigger] final(self).info(k) == old(self).info(k),
            access_refused(old(self).info(handle.region_id), handle, old(buf)@.len()) ==> (
            r matches Err(e) && access_error(
                old(self).info(handle.region_id),
                handle,
                old(buf)@.len(),
                e,
            )) && final(buf)@ == old(buf)@,
    ;

    /// Writes `data`; checks generation and bounds.
    fn write(&mut self, handle: Handle, data: &[u8]) -> (r: Result<(), TvmError>)
        requires
            old(self).usable(),
        ensures
            final(self).usable(),
            forall|k: u16| #[trigger] final(self).info(k) == old(self).info(k),
            access_refused(old(self).info(handle.region_id), handle, data@.len()) ==> (
            r matches Err(e) && access_error(
                old(self).info(handle.region_id),
                handle,
                data@.len(),
                e,
            )),
    ;

    /// Keeps a region where it is; its policy must allow that.
    fn pin(&mut self, region: u16) -> (r: Result<(), TvmError>)
        requires
            old(self).usable(),
        ensures
            final(self).usable(),
            forall|k: u16| k != region ==> #[trigger] final(self).info(k) == old(self).info(k),
            match old(self).info(region) {
                None => r == Err::<(), TvmError>(TvmError::RegionNotFound(region))
                    && final(self).info(region) is None,
                Some(m) => if m.pinnable {
                    r is Ok && final(self).info(region) == Some(Region { pinned: true, ..m })
                } else {
                    r == Err::<(), TvmError>(TvmError::PolicyViolation) && final(self).info(region)
                        == Some(m)
                },
            },
    ;

    /// Lets a region move again. Whether an unknown id is an error is up to the
    /// deployment.
    fn unpin(&mut self, region: u16) -> (r: Result<(), TvmError>)
        requires
            old(self).usable(),
        ensures
            final(self).usable(),
            forall|k: u16| k != region ==> #[trigger] final(self).info(k) == old(self).info(k),
            match old(self).info(region) {
                None => {
                    &&& r is Ok || r == Err::<(), TvmError>(TvmError::RegionNotFound(region))
                    &&& final(self).info(region) is None
                },
                Some(m) => r is Ok && final(self).info(region) == Some(
                    Region { pinned: false, ..m },
                ),
            },
    ;

    /// The metadata of a region.
    fn region_info(&self, region: u16) -> (r: Result<Region, TvmError>)
        requires
            self.usable(),
        ensures
            r == (match self.info(region) {
                Some(m) => Ok::<Region, TvmError>(m),
                None => Err(TvmError::RegionNotFound(region)),
            }),
    ;
}

/// Moving regions out of resident storage and back, for deployments that have
/// somewhere to put them.
pub trait TvmSpill: Sized {
    /// The value is in a state in which it can be used.
    open spec fn spillable(&self) -> bool {
        true
    }

    /// The tier of a region, if there is one of this id.
    open spec fn tier(&self, region: u16) -> Option<Residency> {
        None
    }

    /// Moves a region's bytes out. The region becomes cold.
    fn spill(&mut self, region: u16) -> (r: Result<(), TvmError>)
        requires
            old(self).spillable(),
        ensures
            final(self).spillable(),
            r is Ok ==> old(self).tier(region) is Some && final(self).tier(region) == Some(
                Residency::Cold,
            ),
            forall|k: u16| k != region ==> #[trigger] final(self).tier(k) == old(self).tier(k),
    ;

    /// Brings a cold region's bytes back. The region becomes hot.
    fn load(&mut self, region: u16) -> (r: Result<(), TvmError>)
        requires
            old(self).spillable(),
        ensures
            final(self).spillable(),
            r is Ok ==> old(self).tier(region) is Some && final(self).tier(region) == Some(
                Residency::Hot,
            ),
            forall|k: u16| k != region ==> #[trigger] final(self).tier(k) == old(self).tier(k),
    ;
}

/// Both views of a deployment tell the same tier of every region.
pub open spec fn tiers_agree<T: TvmFacade + TvmSpill>(t: T) -> bool {
    forall|k: u16| #[trigger]
        t.tier(k) == (match t.info(k) {
            Some(m) => Some(m.residency),
            None => None,
        })
}

/// While a region is cold, a plain access through a current handle and inside its
/// bounds is refused as not resident.
pub proof fn law_cold_region_is_not_resident<T: TvmFacade + TvmSpill>(
    t: T,
    h: Handle,
    len: nat,
    e: TvmError,
)
    requires
        tiers_agree(t),
        t.tier(h.region_id) == Some(Residency::Cold),
        t.info(h.region_id)->0.generation == h.generation,
        h.offset + len <= t.info(h.region_id)->0.capacity,
    ensures
        access_refused(t.info(h.region_id), h, len),
        access_error(t.info(h.region_id), h, len, e) <==> e == TvmError::NotResident,
{
}

} // verus!
