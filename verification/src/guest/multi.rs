//! Many guests as one: regions are spread over shards, and callers see one
//! space of region ids.
use vstd::prelude::*;
use crate::error::TvmError;
use crate::facade::TvmFacade;
use crate::handle::Handle;
use crate::region::{policy_of, Region, RegionKind};
use super::directory::{pool_choice, GuestDirectory};
use super::dispatcher::Dispatch;
use super::facade::{behaves_as_memory, law_access_stays_in_region, law_guest_read_gives_back_write, pools_backed, GuestTvm};

verus! {

/// Index of a shard.
pub type ShardId = u32;

/// Guests that share one space of region ids. Id zero belongs to the null handle.
pub struct MultiGuestTvm<D> {
    shards: Vec<GuestTvm<D>>,
    slots: Vec<Option<(ShardId, u16)>>,
    placement_cursor: ShardId,
}

/// The shard would take a region of this kind and size.
pub open spec fn accepts<D: Dispatch>(shard: GuestTvm<D>, kind: RegionKind, capacity: u32) -> bool {
    shard.dir().slot_list().len() < 0xffff && pool_choice(
        shard.dir().pool_list(),
        shard.dir().hot_cursor(),
        shard.dir().warm_cursor(),
        capacity,
        policy_of(kind).initial_residency,
    ) is Some
}

/// The first try, counted from the cursor, at which a shard takes the region.
pub open spec fn first_taker<D: Dispatch>(
    shards: Seq<GuestTvm<D>>,
    cursor: int,
    kind: RegionKind,
    capacity: u32,
    from: int,
) -> Option<int>
    decreases shards.len() - from,
{
    if from < 0 || from >= shards.len() {
        None
    } else if accepts(shards[(cursor + from) % (shards.len() as int)], kind, capacity) {
        Some(from)
    } else {
        first_taker(shards, cursor, kind, capacity, from + 1)
    }
}

impl<D: Dispatch> MultiGuestTvm<D> {
    pub closed spec fn shard_list(&self) -> Seq<GuestTvm<D>> {
        self.shards@
    }

    /// For every id, the shard and the id there.
    pub closed spec fn slot_list(&self) -> Seq<Option<(ShardId, u16)>> {
        self.slots@
    }

    /// The shard that is tried first for the next region.
    pub closed spec fn cursor(&self) -> ShardId {
        self.placement_cursor
    }

    /// Where a region lives: its shard and its id there.
    pub open spec fn home(&self, id: u16) -> Option<(ShardId, u16)> {
        if id < self.slot_list().len() {
            self.slot_list()[id as int]
        } else {
            None
        }
    }

    pub open spec fn wf(&self) -> bool {
        &&& 0 < self.shard_list().len() <= 0x7fff_ffff
        &&& forall|i: int| 0 <= i < self.shard_list().len() ==> (#[trigger] self.shard_list()[i]).wf()
        &&& 1 <= self.slot_list().len() <= 0xffff
        &&& self.slot_list()[0] is None
        &&& forall|id: u16|
            (#[trigger] self.home(id)) is Some ==> (self.home(id)->0).0 < self.shard_list().len()
                && self.shard_list()[(self.home(id)->0).0 as int].dir().has((self.home(id)->0).1)
        &&& forall|a: u16, b: u16|
            a != b && (#[trigger] self.home(a)) is Some && (#[trigger] self.home(b)) is Some
                ==> self.home(a) != self.home(b)
        &&& self.cursor() < self.shard_list().len()
    }

    /// Only shard `s` may have changed; the ids and the cursor are the same.
    pub open spec fn only(pre: Self, post: Self, s: int) -> bool {
        &&& post.slot_list() == pre.slot_list()
        &&& post.cursor() == pre.cursor()
        &&& post.shard_list().len() == pre.shard_list().len()
        &&& forall|i: int|
            0 <= i < pre.shard_list().len() && i != s ==> #[trigger] post.shard_list()[i]
                == pre.shard_list()[i]
    }

    /// A shard that keeps its regions keeps the whole well formed.
    pub proof fn lemma_only_wf(pre: Self, post: Self, s: int)
        requires
            pre.wf(),
            0 <= s < pre.shard_list().len(),
            Self::only(pre, post, s),
            post.shard_list()[s].wf(),
            forall|k: u16|
                pre.shard_list()[s].dir().has(k) ==> #[trigger] post.shard_list()[s].dir().has(k),
        ensures
            post.wf(),
    {
        assert forall|i: int| 0 <= i < post.shard_list().len() implies (
        #[trigger] post.shard_list()[i]).wf() by {
            if i != s {
                assert(pre.shard_list()[i].wf());
            }
        }
        assert forall|id: u16| (#[trigger] post.home(id)) is Some implies (post.home(id)->0).0
            < post.shard_list().len() && post.shard_list()[(post.home(id)->0).0 as int].dir().has(
            (post.home(id)->0).1,
        ) by {
            assert(pre.home(id) == post.home(id));
            let (t, k) = pre.home(id)->0;
            assert(pre.shard_list()[t as int].dir().has(k));
        }
        assert forall|a: u16, b: u16|
            a != b && (#[trigger] post.home(a)) is Some && (#[trigger] post.home(b))
                is Some implies post.home(a) != post.home(b) by {
            assert(pre.home(a) == post.home(a) && pre.home(b) == post.home(b));
        }
    }

    /// Joins shards, of which there must be at least one.
    pub fn new(shards: Vec<GuestTvm<D>>) -> (r: Self)
        requires
            0 < shards@.len() <= 0x7fff_ffff,
            forall|i: int| 0 <= i < shards@.len() ==> (#[trigger] shards@[i]).wf(),
        ensures
            r.wf(),
            r.shard_list() == shards@,
            r.slot_list() == seq![None::<(ShardId, u16)>],
            r.cursor() == 0,
    {
        let mut slots: Vec<Option<(ShardId, u16)>> = Vec::new();
        slots.push(None);
        let r = MultiGuestTvm { shards, slots, placement_cursor: 0 };
        assert(r.slots@ =~= seq![None::<(ShardId, u16)>]);
        r
    }

    pub fn shard_count(&self) -> (r: usize)
        ensures
            r == self.shard_list().len(),
    {
        self.shards.len()
    }

    fn lookup(&self, id: u16) -> (r: Result<(ShardId, u16), TvmError>)
        ensures
            r == (match self.home(id) {
                Some(h) => Ok::<(ShardId, u16), TvmError>(h),
                None => Err(TvmError::RegionNotFound(id)),
            }),
    {
        if (id as usize) < self.slots.len() {
            match self.slots[id as usize] {
                Some(h) => Ok(h),
                None => Err(TvmError::RegionNotFound(id)),
            }
        } else {
            Err(TvmError::RegionNotFound(id))
        }
    }

    /// The shard that a region lives on.
    pub fn shard_of(&self, region: u16) -> (r: Result<ShardId, TvmError>)
        ensures
            r == (match self.home(region) {
                Some((s, _)) => Ok::<ShardId, TvmError>(s),
                None => Err(TvmError::RegionNotFound(region)),
            }),
    {
        match self.lookup(region) {
            Ok((s, _)) => Ok(s),
            Err(e) => Err(e),
        }
    }

    /// The handle that a shard knows, for one that callers know.
    pub open spec fn inner(h: Handle, inner_id: u16) -> Handle {
        Handle { region_id: inner_id, generation: h.generation, offset: h.offset }
    }

    /// What placing a region does: shards are tried round robin, the first that
    /// takes the region gets it, and the next search starts behind that one.
    pub open spec fn places(
        pre: Self,
        kind: RegionKind,
        capacity: u32,
        post: Self,
        r: Result<(ShardId, u16), TvmError>,
    ) -> bool {
        let n = pre.shard_list().len() as int;
        match first_taker(pre.shard_list(), pre.cursor() as int, kind, capacity, 0) {
            None => r == Err::<(ShardId, u16), TvmError>(TvmError::AllocationFailed) && post == pre,
            Some(k) => {
                let s = (pre.cursor() + k) % n;
                &&& r matches Ok((shard, inner)) && shard == s && GuestDirectory::creates(
                    pre.shard_list()[s].dir(),
                    kind,
                    capacity,
                    pre.shard_list()[s].kind(),
                    post.shard_list()[s].dir(),
                    Ok(inner),
                ) && GuestTvm::keeps_rest(pre.shard_list()[s], post.shard_list()[s])
                &&& post.shard_list().len() == n
                &&& forall|i: int|
                    0 <= i < n && i != s ==> #[trigger] post.shard_list()[i] == pre.shard_list()[i]
                &&& post.slot_list() == pre.slot_list()
                &&& post.cursor() == (s + 1) % n
            },
        }
    }

    fn place(&mut self, kind: RegionKind, capacity: u32) -> (r: Result<(ShardId, u16), TvmError>)
        requires
            old(self).wf(),
        ensures
            final(self).wf(),
            Self::places(*old(self), kind, capacity, *final(self), r),
            r matches Ok((s, k)) ==> s < final(self).shard_list().len()
                && final(self).shard_list()[s as int].dir().has(k) && !old(
                self,
            ).shard_list()[s as int].dir().has(k),
    {
        let ghost pre = *self;
        let n: u32 = self.shards.len() as u32;
        let mut k: u32 = 0;
        while k < n
            invariant
                k <= n,
                n == self.shards@.len(),
                pre.wf(),
                first_taker(pre.shard_list(), pre.cursor() as int, kind, capacity, 0)
                    == first_taker(
                    pre.shard_list(),
                    pre.cursor() as int,
                    kind,
                    capacity,
                    k as int,
                ),
                pre == *old(self),
                *self == pre,
            decreases n - k,
        {
            let s: u32 = (self.placement_cursor + k) % n;
            assert(s == (pre.cursor() + k) % (n as int));
            assert(self.shard_list()[s as int].wf());
            if self.shard_accepts(s, kind, capacity) {
                let shard = &mut self.shards[s as usize];
                let made = shard.create_region(kind, capacity);
                self.placement_cursor = (s + 1) % n;
                proof {
                    let a = pre.shard_list()[s as int];
                    let b = self.shard_list()[s as int];
                    a.lemma_wf();
                    assert forall|j: u16| a.dir().has(j) implies #[trigger] b.dir().has(j) by {
                        assert(b.dir().slot_list().drop_last()[j as int] == a.dir().slot_list()[j as int]);
                    }
                    let c = MultiGuestTvm {
                        shards: self.shards,
                        slots: self.slots,
                        placement_cursor: pre.placement_cursor,
                    };
                    Self::lemma_only_wf(pre, c, s as int);
                    assert forall|id: u16| #[trigger] self.home(id) == c.home(id) by {}
                    assert forall|id: u16| (#[trigger] self.home(id)) is Some implies (self.home(
                        id,
                    )->0).0 < self.shard_list().len() && self.shard_list()[(self.home(
                        id,
                    )->0).0 as int].dir().has((self.home(id)->0).1) by {
                        assert(c.home(id) is Some);
                    }
                    assert forall|x: u16, y: u16|
                        x != y && (#[trigger] self.home(x)) is Some && (#[trigger] self.home(y))
                            is Some implies self.home(x) != self.home(y) by {
                        assert(c.home(x) != c.home(y));
                    }
                }
                return match made {
                    Ok(inner) => Ok((s, inner)),
                    Err(e) => Err(e),
                };
            }
            k += 1;
        }
        Err(TvmError::AllocationFailed)
    }

    fn shard_accepts(&self, s: u32, kind: RegionKind, capacity: u32) -> (r: bool)
        requires
            s < self.shard_list().len(),
            self.shard_list()[s as int].wf(),
        ensures
            r == accepts(self.shard_list()[s as int], kind, capacity),
    {
        proof {
            self.shard_list()[s as int].lemma_wf();
        }
        self.shards[s as usize].directory().would_accept(kind, capacity)
    }

    /// What creating a region does: it is placed on a shard and gets the next
    /// id. If the ids have run out it stays where it was placed, without one.
    pub open spec fn creates(
        pre: Self,
        kind: RegionKind,
        capacity: u32,
        post: Self,
        r: Result<u16, TvmError>,
    ) -> bool {
        exists|mid: Self, placed: Result<(ShardId, u16), TvmError>| #[trigger]
            Self::places(pre, kind, capacity, mid, placed) && match placed {
                Err(e) => r == Err::<u16, TvmError>(e) && post == mid,
                Ok(home) => if pre.slot_list().len() >= 0xffff {
                    r == Err::<u16, TvmError>(TvmError::AllocationFailed) && post == mid
                } else {
                    &&& r == Ok::<u16, TvmError>(pre.slot_list().len() as u16)
                    &&& post.slot_list() == pre.slot_list().push(Some(home))
                    &&& post.shard_list() == mid.shard_list()
                    &&& post.cursor() == mid.cursor()
                },
            }
    }

    /// What an allocation does: the shard of the region makes it.
    pub open spec fn allocates(
        pre: Self,
        region: u16,
        size: u32,
        post: Self,
        r: Result<Handle, TvmError>,
    ) -> bool {
        match pre.home(region) {
            None => r == Err::<Handle, TvmError>(TvmError::RegionNotFound(region)) && post == pre,
            Some((s, k)) => {
                &&& Self::only(pre, post, s as int)
                &&& GuestTvm::keeps_rest(pre.shard_list()[s as int], post.shard_list()[s as int])
                &&& GuestDirectory::allocates(
                    pre.shard_list()[s as int].dir(),
                    k,
                    size,
                    post.shard_list()[s as int].dir(),
                    match r {
                        Ok(h) => Ok::<Handle, TvmError>(Self::inner(h, k)),
                        Err(e) => Err(e),
                    },
                )
                &&& r matches Ok(h) ==> h.region_id == region
            },
        }
    }

    /// What giving an allocation back does.
    pub open spec fn deallocates(
        pre: Self,
        handle: Handle,
        post: Self,
        r: Result<(), TvmError>,
    ) -> bool {
        match pre.home(handle.region_id) {
            None => r == Err::<(), TvmError>(TvmError::RegionNotFound(handle.region_id)) && post
                == pre,
            Some((s, k)) => {
                &&& Self::only(pre, post, s as int)
                &&& GuestTvm::keeps_rest(pre.shard_list()[s as int], post.shard_list()[s as int])
                &&& GuestDirectory::deallocates(
                    pre.shard_list()[s as int].dir(),
                    Self::inner(handle, k),
                    post.shard_list()[s as int].dir(),
                    r,
                )
            },
        }
    }

    /// What a read does: the shard of the region reads.
    pub open spec fn reads(
        pre: Self,
        handle: Handle,
        before: Seq<u8>,
        post: Self,
        after: Seq<u8>,
        r: Result<(), TvmError>,
    ) -> bool {
        match pre.home(handle.region_id) {
            None => {
                &&& r == Err::<(), TvmError>(TvmError::RegionNotFound(handle.region_id))
                &&& post == pre
                &&& after == before
            },
            Some((s, k)) => {
                &&& Self::only(pre, post, s as int)
                &&& GuestTvm::reads_at(
                    pre.shard_list()[s as int],
                    Self::inner(handle, k),
                    before,
                    post.shard_list()[s as int],
                    after,
                    r,
                )
            },
        }
    }

    /// What a write does: the shard of the region writes.
    pub open spec fn writes(
        pre: Self,
        handle: Handle,
        data: Seq<u8>,
        post: Self,
        r: Result<(), TvmError>,
    ) -> bool {
        match pre.home(handle.region_id) {
            None => r == Err::<(), TvmError>(TvmError::RegionNotFound(handle.region_id)) && post
                == pre,
            Some((s, k)) => {
                &&& Self::only(pre, post, s as int)
                &&& GuestTvm::writes_at(
                    pre.shard_list()[s as int],
                    Self::inner(handle, k),
                    data,
                    post.shard_list()[s as int],
                    r,
                )
            },
        }
    }
}

impl<D: Dispatch> TvmFacade for MultiGuestTvm<D> {
    open spec fn usable(&self) -> bool {
        self.wf()
    }

    open spec fn info(&self, region: u16) -> Option<Region> {
        match self.home(region) {
            None => None,
            Some((s, k)) => match self.shard_list()[s as int].dir().at(k) {
                Some(e) => Some(Region { id: region, ..e.meta }),
                None => None,
            },
        }
    }

    fn create_region(&mut self, kind: RegionKind, capacity: u32) -> (r: Result<u16, TvmError>)
        ensures
            Self::creates(*old(self), kind, capacity, *final(self), r),
    {
        let placed = self.place(kind, capacity);
        let ghost mid = *self;
        let ghost answer = placed;
        assert(Self::places(*old(self), kind, capacity, mid, answer));
        let home = match placed {
            Err(e) => return Err(e),
            Ok(h) => h,
        };
        let id: usize = self.slots.len();
        if id >= 0xffff {
            return Err(TvmError::AllocationFailed);
        }
        self.slots.push(Some(home));
        proof {
            assert forall|k: u16| (#[trigger] self.home(k)) is Some implies (self.home(k)->0).0
                < self.shard_list().len() && self.shard_list()[(self.home(k)->0).0 as int].dir().has(
                (self.home(k)->0).1,
            ) by {
                if k < id {
                    assert(mid.home(k) == self.home(k));
                }
            }
            assert forall|a: u16, b: u16|
                a != b && (#[trigger] self.home(a)) is Some && (#[trigger] self.home(b))
                    is Some implies self.home(a) != self.home(b) by {
                if a < id && b < id {
                    assert(mid.home(a) == self.home(a) && mid.home(b) == self.home(b));
                } else if a < id {
                    assert(old(self).home(a) == self.home(a));
                } else {
                    assert(old(self).home(b) == self.home(b));
                }
            }
        }
        Ok(id as u16)
    }

    fn allocate(&mut self, region: u16, size: u32) -> (r: Result<Handle, TvmError>)
        ensures
            Self::allocates(*old(self), region, size, *final(self), r),
    {
        let ghost pre = *self;
        let (s, inner): (ShardId, u16) = match self.lookup(region) {
            Err(e) => return Err(e),
            Ok(h) => h,
        };
        assert(self.home(region) == Some((s, inner)));
        assert(self.shard_list()[s as int].wf());
        let shard = &mut self.shards[s as usize];
        let made = shard.allocate(inner, size);
        proof {
            Self::lemma_only_wf(pre, *self, s as int);
        }
        match made {
            Ok(h) => Ok(Handle { region_id: region, generation: h.generation, offset: h.offset }),
            Err(e) => Err(e),
        }
    }

    fn dealloc(&mut self, handle: Handle) -> (r: Result<(), TvmError>)
        ensures
            Self::deallocates(*old(self), handle, *final(self), r),
    {
        let ghost pre = *self;
        let (s, inner): (ShardId, u16) = match self.lookup(handle.region_id) {
            Err(e) => return Err(e),
            Ok(h) => h,
        };
        assert(self.home(handle.region_id) == Some((s, inner)));
        assert(self.shard_list()[s as int].wf());
        let shard = &mut self.shards[s as usize];
        let r = shard.dealloc(
            Handle { region_id: inner, generation: handle.generation, offset: handle.offset },
        );
        proof {
            Self::lemma_only_wf(pre, *self, s as int);
        }
        r
    }

    fn read(&mut self, handle: Handle, buf: &mut [u8]) -> (r: Result<(), TvmError>)
        ensures
            Self::reads(*old(self), handle, old(buf)@, *final(self), final(buf)@, r),
    {
        let ghost pre = *self;
        let (s, inner): (ShardId, u16) = match self.lookup(handle.region_id) {
            Err(e) => return Err(e),
            Ok(h) => h,
        };
        assert(self.home(handle.region_id) == Some((s, inner)));
        assert(self.shard_list()[s as int].wf());
        let shard = &mut self.shards[s as usize];
        let r = shard.read(
            Handle { region_id: inner, generation: handle.generation, offset: handle.offset },
            buf,
        );
        proof {
            Self::lemma_only_wf(pre, *self, s as int);
        }
        r
    }

    fn write(&mut self, handle: Handle, data: &[u8]) -> (r: Result<(), TvmError>)
        ensures
            Self::writes(*old(self), handle, data@, *final(self), r),
    {
        let ghost pre = *self;
        let (s, inner): (ShardId, u16) = match self.lookup(handle.region_id) {
            Err(e) => return Err(e),
            Ok(h) => h,
        };
        assert(self.home(handle.region_id) == Some((s, inner)));
        assert(self.shard_list()[s as int].wf());
        let shard = &mut self.shards[s as usize];
        let r = shard.write(
            Handle { region_id: inner, generation: handle.generation, offset: handle.offset },
            data,
        );
        proof {
            Self::lemma_only_wf(pre, *self, s as int);
        }
        r
    }

    fn pin(&mut self, region: u16) -> (r: Result<(), TvmError>)
        ensures
            match old(self).home(region) {
                None => r == Err::<(), TvmError>(TvmError::RegionNotFound(region)) && *final(self)
                    == *old(self),
                Some((s, k)) => {
                    &&& Self::only(*old(self), *final(self), s as int)
                    &&& GuestTvm::keeps_rest(
                        old(self).shard_list()[s as int],
                        final(self).shard_list()[s as int],
                    )
                    &&& GuestDirectory::pins(
                        old(self).shard_list()[s as int].dir(),
                        k,
                        final(self).shard_list()[s as int].dir(),
                        r,
                    )
                },
            },
    {
        let ghost pre = *self;
        let (s, inner): (ShardId, u16) = match self.lookup(region) {
            Err(e) => return Err(e),
            Ok(h) => h,
        };
        assert(self.home(region) == Some((s, inner)));
        assert(self.shard_list()[s as int].wf());
        let shard = &mut self.shards[s as usize];
        let r = shard.pin(inner);
        proof {
            Self::lemma_only_wf(pre, *self, s as int);
        }
        r
    }

    fn unpin(&mut self, region: u16) -> (r: Result<(), TvmError>)
        ensures
            match old(self).home(region) {
                None => r == Err::<(), TvmError>(TvmError::RegionNotFound(region)) && *final(self)
                    == *old(self),
                Some((s, k)) => {
                    &&& r == Ok::<(), TvmError>(())
                    &&& Self::only(*old(self), *final(self), s as int)
                    &&& GuestTvm::keeps_rest(
                        old(self).shard_list()[s as int],
                        final(self).shard_list()[s as int],
                    )
                    &&& GuestDirectory::unpins(
                        old(self).shard_list()[s as int].dir(),
                        k,
                        final(self).shard_list()[s as int].dir(),
                    )
                },
            },
    {
        let ghost pre = *self;
        let (s, inner): (ShardId, u16) = match self.lookup(region) {
            Err(e) => return Err(e),
            Ok(h) => h,
        };
        assert(self.home(region) == Some((s, inner)));
        assert(self.shard_list()[s as int].wf());
        let shard = &mut self.shards[s as usize];
        let r = shard.unpin(inner);
        proof {
            Self::lemma_only_wf(pre, *self, s as int);
        }
        r
    }

    /// The metadata of a region, under the id that callers know.
    fn region_info(&self, region: u16) -> (r: Result<Region, TvmError>)
        ensures
            r == (match self.home(region) {
                None => Err::<Region, TvmError>(TvmError::RegionNotFound(region)),
                Some((s, k)) => match self.shard_list()[s as int].dir().at(k) {
                    Some(e) => Ok(Region { id: region, ..e.meta }),
                    None => Err(TvmError::RegionNotFound(k)),
                },
            }),
    {
        let (s, inner): (ShardId, u16) = match self.lookup(region) {
            Err(e) => return Err(e),
            Ok(h) => h,
        };
        assert(self.home(region) == Some((s, inner)));
        assert(self.shard_list()[s as int].wf());
        match self.shards[s as usize].region_info(inner) {
            Ok(m) => Ok(Region { id: region, ..m }),
            Err(e) => Err(e),
        }
    }
}

/// A write through a handle of many guests lands where the handle points and nowhere
/// else: over a dispatch that behaves as memory, the bytes from the start of the region plus
/// the handle's offset on become the data, in the pool of the region on its shard; every
/// other byte of that shard's pools, and every other shard, is as it was.
pub proof fn law_multi_write_lands<D: Dispatch>(
    m0: MultiGuestTvm<D>,
    mem: spec_fn(D, u32) -> Seq<u8>,
    h: Handle,
    data: Seq<u8>,
    m1: MultiGuestTvm<D>,
    r: Result<(), TvmError>,
    s: ShardId,
    k: u16,
    b: int,
    other: int,
)
    requires
        m0.wf(),
        behaves_as_memory(mem),
        m0.home(h.region_id) == Some((s, k)),
        pools_backed(m0.shard_list()[s as int], mem),
        m0.shard_list()[s as int].dir().at(k)->0.meta.generation == h.generation,
        h.offset + data.len() <= m0.shard_list()[s as int].dir().at(k)->0.meta.capacity,
        MultiGuestTvm::writes(m0, h, data, m1, r),
        0 <= other < m0.shard_list().len(),
    ensures
        r is Ok,
        other != s ==> m1.shard_list()[other] == m0.shard_list()[other],
        ({
            let e = m0.shard_list()[s as int].dir().at(k)->0;
            let old_bytes = mem(m0.shard_list()[s as int].way(), e.pool_index);
            let new_bytes = mem(m1.shard_list()[s as int].way(), e.pool_index);
            let start = e.base_offset + h.offset;
            &&& new_bytes.len() == old_bytes.len()
            &&& start + data.len() <= old_bytes.len()
            &&& 0 <= b < old_bytes.len() ==> new_bytes[b] == (if start <= b < start + data.len() {
                data[b - start]
            } else {
                old_bytes[b]
            })
        }),
{
    let t = m0.shard_list()[s as int];
    assert(t.wf());
    t.lemma_wf();
    assert(t.dir().has(k));
    let inner = MultiGuestTvm::<D>::inner(h, k);
    law_access_stays_in_region(t, inner, data.len());
    let (pool, offset) = t.access(inner, data.len())->Ok_0;
    assert(t.dir().pool_list()[pool as int].capacity <= mem(t.way(), pool).len());
}

/// A read of many guests gives back what was written through the same handle.
pub proof fn law_multi_read_gives_back_write<D: Dispatch>(
    m0: MultiGuestTvm<D>,
    mem: spec_fn(D, u32) -> Seq<u8>,
    h: Handle,
    data: Seq<u8>,
    m1: MultiGuestTvm<D>,
    w: Result<(), TvmError>,
    before: Seq<u8>,
    m2: MultiGuestTvm<D>,
    after: Seq<u8>,
    r: Result<(), TvmError>,
    s: ShardId,
    k: u16,
)
    requires
        m0.wf(),
        behaves_as_memory(mem),
        m0.home(h.region_id) == Some((s, k)),
        pools_backed(m0.shard_list()[s as int], mem),
        m0.shard_list()[s as int].dir().at(k)->0.meta.generation == h.generation,
        h.offset + data.len() <= m0.shard_list()[s as int].dir().at(k)->0.meta.capacity,
        MultiGuestTvm::writes(m0, h, data, m1, w),
        before.len() == data.len(),
        MultiGuestTvm::reads(m1, h, before, m2, after, r),
    ensures
        w is Ok,
        r is Ok,
        after == data,
{
    let t0 = m0.shard_list()[s as int];
    let t1 = m1.shard_list()[s as int];
    let t2 = m2.shard_list()[s as int];
    assert(t0.wf());
    t0.lemma_wf();
    assert(t0.dir().has(k));
    let inner = MultiGuestTvm::<D>::inner(h, k);
    assert(m1.home(h.region_id) == m0.home(h.region_id));
    law_guest_read_gives_back_write(t0, mem, inner, data, t1, w, before, t2, after, r);
}

/// Two regions of many guests never share a home: their ids name different regions, of
/// different shards or of one.
pub proof fn law_multi_regions_are_apart<D: Dispatch>(m: MultiGuestTvm<D>, a: u16, b: u16)
    requires
        m.wf(),
        a != b,
        m.home(a) is Some,
        m.home(b) is Some,
    ensures
        m.home(a) != m.home(b),
{
}

} // verus!
