//! Regions of bytes, and the stores that cold regions are spilled to.
use vstd::prelude::*;
use crate::error::TvmError;
use crate::text::{decimal, push_decimal};

verus! {

/// `bytes` with `data` laid over it from `offset` on.
pub open spec fn overwritten(bytes: Seq<u8>, offset: int, data: Seq<u8>) -> Seq<u8> {
    Seq::new(
        bytes.len(),
        |i: int|
            if offset <= i < offset + data.len() {
                data[i - offset]
            } else {
                bytes[i]
            },
    )
}

/// Copies all of `src` into `dst` from index `at` on.
pub fn copy_into(dst: &mut Vec<u8>, at: usize, src: &[u8])
    requires
        at + src@.len() <= old(dst)@.len(),
    ensures
        final(dst)@ == overwritten(old(dst)@, at as int, src@),
{
    let ghost before = dst@;
    let room: usize = dst.len();
    let mut i: usize = 0;
    while i < src.len()
        invariant
            i <= src@.len(),
            room == dst@.len(),
            at + src@.len() <= room,
            dst@ == overwritten(before, at as int, src@.subrange(0, i as int)),
        decreases src@.len() - i,
    {
        dst.set(at + i, src[i]);
        i += 1;
        assert(dst@ =~= overwritten(before, at as int, src@.subrange(0, i as int)));
    }
    assert(src@.subrange(0, i as int) =~= src@);
    assert(dst@ =~= overwritten(before, at as int, src@));
}

/// Fills `dst` with the bytes of `src` from index `at` on.
pub fn copy_out(src: &[u8], at: usize, dst: &mut [u8])
    requires
        at + old(dst)@.len() <= src@.len(),
    ensures
        final(dst)@ == src@.subrange(at as int, at + old(dst)@.len()),
{
    let ghost n = dst@.len();
    let room: usize = src.len();
    let mut i: usize = 0;
    while i < dst.len()
        invariant
            i <= dst@.len(),
            dst@.len() == n,
            room == src@.len(),
            at + n <= room,
            forall|j: int| 0 <= j < i ==> #[trigger] dst@[j] == src@[at + j],
        decreases dst@.len() - i,
    {
        dst[i] = src[at + i];
        i += 1;
    }
    assert(dst@ =~= src@.subrange(at as int, at + n));
}

/// A buffer of `len` zero bytes.
pub fn zeroed(len: usize) -> (r: Vec<u8>)
    ensures
        r@ == Seq::new(len as nat, |i: int| 0u8),
{
    let r: Vec<u8> = vec![0u8; len];
    assert(r@ =~= Seq::new(len as nat, |i: int| 0u8));
    r
}

/// An owned, mutable region of bytes. Whether an access succeeds is the
/// region's own rule; a successful one reads or replaces exactly the bytes asked for.
pub trait MemoryRegion: Sized {
    /// The bytes of the region.
    spec fn bytes(&self) -> Seq<u8>;

    /// How a read of `len` bytes from `offset` on ends.
    spec fn read_result(&self, offset: u32, len: nat) -> Result<(), TvmError>;

    /// How a write of `len` bytes from `offset` on ends.
    spec fn write_result(&self, offset: u32, len: nat) -> Result<(), TvmError>;

    /// A read or write that succeeds stays inside the region.
    proof fn lemma_access_in_bounds(&self, offset: u32, len: nat)
        ensures
            self.read_result(offset, len) is Ok ==> offset + len <= self.bytes().len(),
            self.write_result(offset, len) is Ok ==> offset + len <= self.bytes().len(),
    ;

    fn len(&self) -> (r: u32)
        ensures
            r == self.bytes().len() % 0x1_0000_0000,
    ;

    fn read(&self, offset: u32, buf: &mut [u8]) -> (r: Result<(), TvmError>)
        ensures
            r == self.read_result(offset, old(buf)@.len()),
            final(buf)@.len() == old(buf)@.len(),
            r is Ok ==> offset + old(buf)@.len() <= self.bytes().len() && final(buf)@
                == self.bytes().subrange(offset as int, offset + old(buf)@.len()),
            r is Err ==> final(buf)@ == old(buf)@,
    ;

    fn write(&mut self, offset: u32, buf: &[u8]) -> (r: Result<(), TvmError>)
        ensures
            r == old(self).write_result(offset, buf@.len()),
            r is Ok ==> offset + buf@.len() <= old(self).bytes().len() && final(self).bytes()
                == overwritten(old(self).bytes(), offset as int, buf@),
            r is Err ==> *final(self) == *old(self),
    ;

    fn snapshot(&self) -> (r: Vec<u8>)
        ensures
            r@ == self.bytes(),
    ;

    fn restore(bytes: Vec<u8>) -> (r: Self)
        ensures
            r.bytes() == bytes@,
    ;
}

/// A region held in an ordinary vector.
pub struct VecBackedRegion {
    data: Vec<u8>,
}

/// An access of `len` bytes from `offset` on stays inside `size` bytes.
pub open spec fn in_bounds(size: nat, offset: u32, len: nat) -> Result<(), TvmError> {
    if offset + len <= size {
        Ok(())
    } else {
        Err(TvmError::OutOfBounds)
    }
}

impl VecBackedRegion {
    pub closed spec fn view(&self) -> Seq<u8> {
        self.data@
    }

    pub fn new(capacity: u32) -> (r: Self)
        ensures
            r@ == Seq::new(capacity as nat, |i: int| 0u8),
            r.bytes() == r@,
    {
        VecBackedRegion { data: zeroed(capacity as usize) }
    }

    pub fn from_bytes(data: Vec<u8>) -> (r: Self)
        ensures
            r@ == data@,
            r.bytes() == r@,
    {
        VecBackedRegion { data }
    }

    pub fn as_slice(&self) -> (r: &[u8])
        ensures
            r@ == self@,
            self.bytes() == self@,
    {
        self.data.as_slice()
    }

    pub fn data_mut(&mut self) -> (r: &mut [u8])
        ensures
            r@ == old(self)@,
            final(self)@ == final(r)@,
            old(self).bytes() == old(self)@,
            final(self).bytes() == final(self)@,
    {
        self.data.as_mut_slice()
    }

    pub fn into_bytes(self) -> (r: Vec<u8>)
        ensures
            r@ == self@,
            self.bytes() == self@,
    {
        self.data
    }
}

impl MemoryRegion for VecBackedRegion {
    open spec fn bytes(&self) -> Seq<u8> {
        self@
    }

    open spec fn read_result(&self, offset: u32, len: nat) -> Result<(), TvmError> {
        in_bounds(self@.len(), offset, len)
    }

    open spec fn write_result(&self, offset: u32, len: nat) -> Result<(), TvmError> {
        in_bounds(self@.len(), offset, len)
    }

    proof fn lemma_access_in_bounds(&self, offset: u32, len: nat) {
    }

    fn len(&self) -> u32 {
        (self.data.len() as u64 % 0x1_0000_0000) as u32
    }

    fn read(&self, offset: u32, buf: &mut [u8]) -> Result<(), TvmError> {
        let size: usize = self.data.len();
        let start: usize = offset as usize;
        let end: usize = match start.checked_add(buf.len()) {
            Some(e) => e,
            None => return Err(TvmError::OutOfBounds),
        };
        if end > size {
            return Err(TvmError::OutOfBounds);
        }
        copy_out(self.data.as_slice(), start, buf);
        Ok(())
    }

    fn write(&mut self, offset: u32, buf: &[u8]) -> Result<(), TvmError> {
        let size: usize = self.data.len();
        let start: usize = offset as usize;
        let end: usize = match start.checked_add(buf.len()) {
            Some(e) => e,
            None => return Err(TvmError::OutOfBounds),
        };
        if end > size {
            return Err(TvmError::OutOfBounds);
        }
        copy_into(&mut self.data, start, buf);
        Ok(())
    }

    fn snapshot(&self) -> Vec<u8> {
        let r = self.data.clone();
        assert(r@ =~= self.data@);
        r
    }

    fn restore(bytes: Vec<u8>) -> Self {
        Self::from_bytes(bytes)
    }
}

/// Where cold regions go. What a store does is its own rule, given as the two
/// relations; the directory fixes what it is handed.
pub trait BackingStore: Sized {
    /// `pre` may become `post` and answer `r` when handed these bytes. A store that says
    /// nothing more may answer anything.
    open spec fn spills(
        pre: Self,
        region_id: u16,
        generation: u16,
        bytes: Seq<u8>,
        post: Self,
        r: Result<(), TvmError>,
    ) -> bool {
        true
    }

    /// `pre` may become `post` and answer `r` when asked for this region.
    open spec fn loads(
        pre: Self,
        region_id: u16,
        generation: u16,
        post: Self,
        r: Result<Vec<u8>, TvmError>,
    ) -> bool {
        true
    }

    fn spill(&mut self, region_id: u16, generation: u16, bytes: &[u8]) -> (r: Result<(), TvmError>)
        ensures
            Self::spills(*old(self), region_id, generation, bytes@, *final(self), r),
    ;

    fn load(&mut self, region_id: u16, generation: u16) -> (r: Result<Vec<u8>, TvmError>)
        ensures
            Self::loads(*old(self), region_id, generation, *final(self), r),
    ;
}

/// The name of the file that holds one spilled region.
pub open spec fn spill_file_text(region_id: u16, generation: u16) -> Seq<char> {
    "region-"@ + decimal(region_id as nat) + "-gen-"@ + decimal(generation as nat) + ".bin"@
}

/// The name of the file that holds one spilled region.
pub fn spill_file_name(region_id: u16, generation: u16) -> (r: String)
    ensures
        r@ == spill_file_text(region_id, generation),
{
    let mut out = "region-".to_owned();
    push_decimal(&mut out, region_id as u64);
    out.append("-gen-");
    push_decimal(&mut out, generation as u64);
    out.append(".bin");
    out
}

} // verus!
