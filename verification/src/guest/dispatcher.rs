//! How the guest reaches the bytes of its pools.
use vstd::prelude::*;
use crate::error::TvmError;

verus! {

/// Reads, writes and copies in the memory pools. What an access does to the
/// pools is the implementation's own rule, given as relations between the
/// dispatch before and after; one that gives none may do and answer anything.
pub trait Dispatch: Sized {
    /// The implementation can be called.
    open spec fn ready(&self) -> bool {
        true
    }

    /// A read at this place may make `pre` into `post`, turn `before` into
    /// `after` and answer `r`.
    open spec fn reads(
        pre: Self,
        pool: u32,
        offset: u32,
        before: Seq<u8>,
        post: Self,
        after: Seq<u8>,
        r: Result<(), TvmError>,
    ) -> bool {
        true
    }

    /// A write of these bytes at this place may make `pre` into `post` and answer `r`.
    open spec fn writes(
        pre: Self,
        pool: u32,
        offset: u32,
        data: Seq<u8>,
        post: Self,
        r: Result<(), TvmError>,
    ) -> bool {
        true
    }

    /// A copy inside one pool may make `pre` into `post` and answer `r`.
    open spec fn copies(
        pre: Self,
        pool: u32,
        dst_off: u32,
        src_off: u32,
        len: u32,
        post: Self,
        r: Result<(), TvmError>,
    ) -> bool {
        true
    }

    /// Reads bytes from `(pool, offset)` into `dst`.
    fn read_bytes(&mut self, pool: u32, offset: u32, dst: &mut [u8]) -> (r: Result<(), TvmError>)
        requires
            old(self).ready(),
        ensures
            final(self).ready(),
            Self::reads(*old(self), pool, offset, old(dst)@, *final(self), final(dst)@, r),
    ;

    /// Writes bytes to `(pool, offset)`.
    fn write_bytes(&mut self, pool: u32, offset: u32, src: &[u8]) -> (r: Result<(), TvmError>)
        requires
            old(self).ready(),
        ensures
            final(self).ready(),
            Self::writes(*old(self), pool, offset, src@, *final(self), r),
    ;

    /// Copies `len` bytes from `src_off` to `dst_off` inside one pool. The two
    /// ranges may overlap.
    fn intra_pool_copy(&mut self, pool: u32, dst_off: u32, src_off: u32, len: u32) -> (r: Result<
        (),
        TvmError,
    >)
        requires
            old(self).ready(),
        ensures
            final(self).ready(),
            Self::copies(*old(self), pool, dst_off, src_off, len, *final(self), r),
    ;
}

/// Three functions as a dispatch. The functions stay what they are; the pools
/// lie behind them.
pub struct FnDispatch<R, W, C> {
    pub read: R,
    pub write: W,
    pub copy: C,
}

impl<
    R: Fn(u32, u32, &mut [u8]) -> Result<(), TvmError>,
    W: Fn(u32, u32, &[u8]) -> Result<(), TvmError>,
    C: Fn(u32, u32, u32, u32) -> Result<(), TvmError>,
> FnDispatch<R, W, C> {
    pub fn new(read: R, write: W, copy: C) -> (r: Self)
        ensures
            r.read == read,
            r.write == write,
            r.copy == copy,
            (forall|p: u32, o: u32, d: &mut [u8]| #[trigger] call_requires(read, (p, o, d))) && (
            forall|p: u32, o: u32, s: &[u8]| #[trigger] call_requires(write, (p, o, s))) && (forall|
                p: u32,
                d: u32,
                s: u32,
                n: u32,
            | #[trigger]
                call_requires(copy, (p, d, s, n))) ==> r.ready(),
    {
        FnDispatch { read, write, copy }
    }
}

impl<
    R: Fn(u32, u32, &mut [u8]) -> Result<(), TvmError>,
    W: Fn(u32, u32, &[u8]) -> Result<(), TvmError>,
    C: Fn(u32, u32, u32, u32) -> Result<(), TvmError>,
> Dispatch for FnDispatch<R, W, C> {
    open spec fn ready(&self) -> bool {
        &&& forall|p: u32, o: u32, d: &mut [u8]| #[trigger] call_requires(self.read, (p, o, d))
        &&& forall|p: u32, o: u32, s: &[u8]| #[trigger] call_requires(self.write, (p, o, s))
        &&& forall|p: u32, d: u32, s: u32, n: u32| #[trigger]
            call_requires(self.copy, (p, d, s, n))
    }

    /// What the function leaves in the buffer is stated by the method.
    open spec fn reads(
        pre: Self,
        pool: u32,
        offset: u32,
        before: Seq<u8>,
        post: Self,
        after: Seq<u8>,
        r: Result<(), TvmError>,
    ) -> bool {
        &&& post == pre
        &&& exists|d: &mut [u8]|
            before == d@ && #[trigger] call_ensures(pre.read, (pool, offset, d), r)
    }

    open spec fn writes(
        pre: Self,
        pool: u32,
        offset: u32,
        data: Seq<u8>,
        post: Self,
        r: Result<(), TvmError>,
    ) -> bool {
        &&& post == pre
        &&& exists|s: &[u8]| s@ == data && #[trigger] call_ensures(pre.write, (pool, offset, s), r)
    }

    open spec fn copies(
        pre: Self,
        pool: u32,
        dst_off: u32,
        src_off: u32,
        len: u32,
        post: Self,
        r: Result<(), TvmError>,
    ) -> bool {
        &&& post == pre
        &&& call_ensures(pre.copy, (pool, dst_off, src_off, len), r)
    }

    /// The buffer is left as the function leaves it.
    fn read_bytes(&mut self, pool: u32, offset: u32, dst: &mut [u8]) -> (r: Result<(), TvmError>)
        ensures
            exists|d: &mut [u8]|
                d@ == old(dst)@ && final(d)@ == final(dst)@ && #[trigger] call_ensures(
                    old(self).read,
                    (pool, offset, d),
                    r,
                ),
    {
        (self.read)(pool, offset, dst)
    }

    fn write_bytes(&mut self, pool: u32, offset: u32, src: &[u8]) -> Result<(), TvmError> {
        (self.write)(pool, offset, src)
    }

    fn intra_pool_copy(&mut self, pool: u32, dst_off: u32, src_off: u32, len: u32) -> Result<
        (),
        TvmError,
    > {
        (self.copy)(pool, dst_off, src_off, len)
    }
}

} // verus!
