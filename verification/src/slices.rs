//! Direct slice access to regions held in vectors.
use vstd::prelude::*;
use crate::directory::RegionDirectory;
use crate::entry::{fits, RegionEntry};
use crate::error::TvmError;
use crate::handle::Handle;
use crate::memory_region::{MemoryRegion, VecBackedRegion};

verus! {

impl RegionDirectory<VecBackedRegion> {
    /// The slice that `handle` and `len` name lies inside the region's vector
    /// whenever it lies inside its capacity.
    pub open spec fn slice_backed(&self, handle: Handle, len: u32) -> bool {
        match self.at(handle.region_id) {
            Some(e) => e.memory is Some && fits(handle.offset, len, e.meta.capacity)
                ==> handle.offset + len <= e.memory->0@.len(),
            None => true,
        }
    }

    /// How a slice access through a handle ends, with the residency looked at first.
    pub open spec fn slice_result(&self, handle: Handle, len: u32) -> Result<(), TvmError> {
        match self.at(handle.region_id) {
            None => Err(TvmError::RegionNotFound(handle.region_id)),
            Some(e) => if e.meta.generation != handle.generation {
                Err(TvmError::StaleHandle)
            } else if e.memory is None {
                Err(TvmError::NotResident)
            } else if !fits(handle.offset, len, e.meta.capacity) {
                Err(TvmError::OutOfBounds)
            } else {
                Ok(())
            },
        }
    }

    /// The bytes that `handle` points at, counted as a read.
    pub fn region_slice_at(&mut self, handle: Handle, len: u32) -> (r: Result<&[u8], TvmError>)
        requires
            old(self).wf(),
            old(self).slice_backed(handle, len),
        ensures
            final(self).wf(),
            match old(self).slice_result(handle, len) {
                Err(e) => {
                    &&& r matches Err(err) && err == e
                    &&& Self::same(*old(self), *final(self))
                },
                Ok(_) => {
                    let e = old(self).at(handle.region_id)->0;
                    &&& r matches Ok(slice) && slice@ == e.memory->0@.subrange(
                        handle.offset as int,
                        handle.offset + len,
                    )
                    &&& Self::only(
                        *old(self),
                        *final(self),
                        handle.region_id,
                        RegionEntry { metrics: e.metrics.after_read(len as u64), ..e },
                    )
                },
            },
    {
        let ghost pre = *self;
        let start: usize = handle.offset as usize;
        match self.entry(handle.region_id) {
            Err(e) => return Err(e),
            Ok(entry) => {
                if entry.meta.generation != handle.generation {
                    return Err(TvmError::StaleHandle);
                }
                if entry.memory.is_none() {
                    return Err(TvmError::NotResident);
                }
                match handle.offset.checked_add(len) {
                    None => return Err(TvmError::OutOfBounds),
                    Some(end) => {
                        if end > entry.meta.capacity {
                            return Err(TvmError::OutOfBounds);
                        }
                    },
                }
            },
        }
        match self.entry_mut(handle.region_id) {
            Err(_) => {},
            Ok(entry) => {
                entry.metrics.record_read(len as u64);
            },
        }
        proof {
            Self::lemma_only_wf(pre, *self, handle.region_id, self.at(handle.region_id)->0);
        }
        match self.entry(handle.region_id) {
            Err(e) => Err(e),
            Ok(entry) => match &entry.memory {
                None => Err(TvmError::NotResident),
                Some(m) => {
                    let bytes = m.as_slice();
                    Ok(vstd::slice::slice_subrange(bytes, start, start + len as usize))
                },
            },
        }
    }

    /// The bytes that `handle` points at, for change, counted as a write. The
    /// bounds are checked, and the write counted, before the residency is looked at.
    pub fn region_slice_mut_at(&mut self, handle: Handle, len: u32) -> (r: Result<
        &mut [u8],
        TvmError,
    >)
        requires
            old(self).wf(),
            old(self).slice_backed(handle, len),
        ensures
            match old(self).at(handle.region_id) {
                None => {
                    &&& r matches Err(err) && err == TvmError::RegionNotFound(handle.region_id)
                    &&& Self::same(*old(self), *final(self))
                },
                Some(e) => if e.meta.generation != handle.generation {
                    &&& r matches Err(err) && err == TvmError::StaleHandle
                    &&& Self::same(*old(self), *final(self))
                } else if !fits(handle.offset, len, e.meta.capacity) {
                    &&& r matches Err(err) && err == TvmError::OutOfBounds
                    &&& Self::same(*old(self), *final(self))
                } else {
                    let counted = RegionEntry { metrics: e.metrics.after_write(len as u64), ..e };
                    match e.memory {
                        None => {
                            &&& r matches Err(err) && err == TvmError::NotResident
                            &&& Self::only(*old(self), *final(self), handle.region_id, counted)
                        },
                        Some(m) => {
                            let lo = handle.offset as int;
                            let hi = handle.offset + len;
                            &&& r matches Ok(slice) && {
                                let post = final(self).at(handle.region_id)->0;
                                &&& slice@ == m@.subrange(lo, hi)
                                &&& final(self).has(handle.region_id)
                                &&& post.memory is Some
                                &&& post.memory->0@ == m@.subrange(0, lo) + final(slice)@
                                    + m@.subrange(hi, m@.len() as int)
                                &&& post == (RegionEntry { memory: post.memory, ..counted })
                                &&& Self::only(*old(self), *final(self), handle.region_id, post)
                            }
                        },
                    }
                },
            },
    {
        let start: usize = handle.offset as usize;
        match self.entry(handle.region_id) {
            Err(e) => return Err(e),
            Ok(entry) => {
                if entry.meta.generation != handle.generation {
                    return Err(TvmError::StaleHandle);
                }
                match handle.offset.checked_add(len) {
                    None => return Err(TvmError::OutOfBounds),
                    Some(end) => {
                        if end > entry.meta.capacity {
                            return Err(TvmError::OutOfBounds);
                        }
                    },
                }
            },
        }
        match self.entry_mut(handle.region_id) {
            Err(e) => Err(e),
            Ok(entry) => {
                entry.metrics.record_write(len as u64);
                match &mut entry.memory {
                    None => Err(TvmError::NotResident),
                    Some(m) => {
                        let (_, tail) = m.data_mut().split_at_mut(start);
                        let (slice, _) = tail.split_at_mut(len as usize);
                        Ok(slice)
                    },
                }
            },
        }
    }
}

} // verus!
