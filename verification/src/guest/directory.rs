//! The guest's region directory: which pool a region lives in, where it starts
//! there, and its allocator.
use vstd::prelude::*;
use crate::allocator::{AllocatorKind, RegionAllocator};
use crate::blocks::{aligned_up, ascending, block_end, first_fit, lemma_live_blocks, lemma_live_blocks_ascend, lemma_packed_blocks, lemma_total_prefix_monotonic, lemma_total_prefix_step, live_blocks, packed_blocks, packed_mapping, packed_start, total_size};
use crate::error::TvmError;
use crate::eviction::resident;
use crate::handle::Handle;
use crate::memory_region::overwritten;
use crate::region::{advance_generation, next_generation, policy_of, PlacementPolicy, Region, RegionKind, Residency};
use crate::remap::{HandleRemap, OffsetMap};
use super::dispatcher::Dispatch;

verus! {

/// One memory pool. Each pool is a memory of its own.
#[derive(Clone, Copy, Debug, PartialEq, Eq, Structural)]
pub struct Pool {
    /// The index of the memory that holds this pool.
    pub memory_index: u32,
    /// Bytes that regions have taken so far.
    pub used: u32,
    /// Bytes in all.
    pub capacity: u32,
}

/// A region and where it lives.
pub struct GuestRegion {
    pub meta: Region,
    pub pool_index: u32,
    /// Where in the pool the region starts.
    pub base_offset: u32,
    pub allocator: RegionAllocator,
}

impl GuestRegion {
    pub open spec fn wf(&self) -> bool {
        &&& self.allocator.wf()
        &&& self.allocator.cap() == self.meta.capacity
        &&& self.allocator.used_bytes() == self.meta.used
        &&& self.meta.generation != 0
        &&& resident(self.meta.residency)
    }
}

/// The guest's regions and pools. Region ids are handed out densely from one;
/// id zero belongs to the null handle.
pub struct GuestDirectory {
    pools: Vec<Pool>,
    slots: Vec<Option<GuestRegion>>,
    cursor_hot: u32,
    cursor_warm: u32,
}

/// No pool has given out more than it has, and they can be counted.
pub open spec fn pools_ok(pools: Seq<Pool>) -> bool {
    &&& pools.len() <= 0x7fff_ffff
    &&& forall|i: int|
        0 <= i < pools.len() ==> (#[trigger] pools[i]).used <= pools[i].capacity
}

/// Where the high band of `n` pools starts: the low band is the larger half.
pub open spec fn band_split(n: int) -> int {
    (n + 1) / 2
}

/// The first try, counted from the cursor, that finds room in the band.
pub open spec fn first_room(
    pools: Seq<Pool>,
    lo: int,
    span: int,
    cursor: int,
    capacity: u32,
    from: int,
) -> Option<int>
    decreases span - from,
{
    if from < 0 || from >= span {
        None
    } else {
        let pool = pools[lo + (cursor + from) % span];
        if pool.capacity - pool.used >= capacity {
            Some(from)
        } else {
            first_room(pools, lo, span, cursor, capacity, from + 1)
        }
    }
}

/// The pool that a band offers, and the cursor behind it.
pub open spec fn band_choice(pools: Seq<Pool>, lo: int, hi: int, cursor: u32, capacity: u32) -> Option<
    (int, u32),
> {
    match first_room(pools, lo, hi - lo, cursor as int, capacity, 0) {
        Some(k) => Some(
            (lo + (cursor + k) % (hi - lo), ((cursor + k + 1) % (hi - lo)) as u32),
        ),
        None => None,
    }
}

/// Regions that start hot or external go to the low band, others to the high one.
pub open spec fn prefers_low(t: Residency) -> bool {
    t == Residency::Hot || t == Residency::External
}

/// The pool for a new region, and both cursors after: the preferred band
/// first, round robin inside it, then the other band.
pub open spec fn pool_choice(
    pools: Seq<Pool>,
    hot: u32,
    warm: u32,
    capacity: u32,
    t: Residency,
) -> Option<(int, u32, u32)> {
    let n = pools.len() as int;
    let mid = band_split(n);
    let low = match band_choice(pools, 0, mid, hot, capacity) {
        Some((i, c)) => Some((i, c, warm)),
        None => None,
    };
    let high = match band_choice(pools, mid, n, warm, capacity) {
        Some((i, c)) => Some((i, hot, c)),
        None => None,
    };
    if prefers_low(t) {
        if low is Some {
            low
        } else {
            high
        }
    } else {
        if high is Some {
            high
        } else {
            low
        }
    }
}

proof fn lemma_first_room(
    pools: Seq<Pool>,
    lo: int,
    span: int,
    cursor: int,
    capacity: u32,
    from: int,
)
    requires
        0 <= from,
        0 <= lo,
        0 <= cursor,
        lo + span <= pools.len(),
        first_room(pools, lo, span, cursor, capacity, from) is Some,
    ensures
        ({
            let k = first_room(pools, lo, span, cursor, capacity, from)->0;
            let i = lo + (cursor + k) % span;
            &&& from <= k < span
            &&& lo <= i < lo + span
            &&& pools[i].capacity - pools[i].used >= capacity
        }),
    decreases span - from,
{
    if from < span {
        let i = lo + (cursor + from) % span;
        assert(0 <= (cursor + from) % span < span) by (nonlinear_arith)
            requires
                span > 0,
                cursor + from >= 0,
        ;
        if pools[i].capacity - pools[i].used < capacity {
            lemma_first_room(pools, lo, span, cursor, capacity, from + 1);
        }
    }
}

/// The chosen pool exists and has room, and the cursors stay inside their bands.
pub proof fn lemma_pool_choice(pools: Seq<Pool>, hot: u32, warm: u32, capacity: u32, t: Residency)
    requires
        pools_ok(pools),
        pool_choice(pools, hot, warm, capacity, t) is Some,
    ensures
        ({
            let (i, h, w) = pool_choice(pools, hot, warm, capacity, t)->0;
            &&& 0 <= i < pools.len()
            &&& pools[i].capacity - pools[i].used >= capacity
            &&& h == hot || h < pools.len()
            &&& w == warm || w < pools.len()
        }),
{
    let n = pools.len() as int;
    let mid = band_split(n);
    if band_choice(pools, 0, mid, hot, capacity) is Some {
        lemma_first_room(pools, 0, mid, hot as int, capacity, 0);
        let k = first_room(pools, 0, mid, hot as int, capacity, 0)->0;
        assert(0 <= (hot + k + 1) % mid < mid) by (nonlinear_arith)
            requires
                mid > 0,
                hot + k + 1 >= 0,
        ;
    }
    if band_choice(pools, mid, n, warm, capacity) is Some {
        lemma_first_room(pools, mid, n - mid, warm as int, capacity, 0);
        let k = first_room(pools, mid, n - mid, warm as int, capacity, 0)->0;
        assert(0 <= (warm + k + 1) % (n - mid) < n - mid) by (nonlinear_arith)
            requires
                n - mid > 0,
                warm + k + 1 >= 0,
        ;
    }
}

/// A region that starts hot lands in the low band while that has room, and one
/// that starts warm in the high band while that has room.
pub proof fn law_bands(pools: Seq<Pool>, hot: u32, warm: u32, capacity: u32, t: Residency)
    requires
        pools_ok(pools),
    ensures
        prefers_low(t) && band_choice(pools, 0, band_split(pools.len() as int), hot, capacity)
            is Some ==> (pool_choice(pools, hot, warm, capacity, t)->0).0 < band_split(
            pools.len() as int,
        ),
        !prefers_low(t) && band_choice(
            pools,
            band_split(pools.len() as int),
            pools.len() as int,
            warm,
            capacity,
        ) is Some ==> (pool_choice(pools, hot, warm, capacity, t)->0).0 >= band_split(
            pools.len() as int,
        ),
{
    let n = pools.len() as int;
    let mid = band_split(n);
    if band_choice(pools, 0, mid, hot, capacity) is Some {
        lemma_first_room(pools, 0, mid, hot as int, capacity, 0);
    }
    if band_choice(pools, mid, n, warm, capacity) is Some {
        lemma_first_room(pools, mid, n - mid, warm as int, capacity, 0);
    }
}

proof fn lemma_no_room(
    pools: Seq<Pool>,
    lo: int,
    span: int,
    cursor: int,
    capacity: u32,
    from: int,
    k: int,
)
    requires
        0 <= from <= k < span,
        first_room(pools, lo, span, cursor, capacity, from) is None,
    ensures
        pools[lo + (cursor + k) % span].capacity - pools[lo + (cursor + k) % span].used < capacity,
    decreases k - from,
{
    if from < k {
        lemma_no_room(pools, lo, span, cursor, capacity, from + 1, k);
    }
}

proof fn lemma_band_has_no_room(
    pools: Seq<Pool>,
    lo: int,
    hi: int,
    cursor: u32,
    capacity: u32,
    i: int,
)
    requires
        0 <= lo <= i < hi <= pools.len(),
        band_choice(pools, lo, hi, cursor, capacity) is None,
    ensures
        pools[i].capacity - pools[i].used < capacity,
{
    let span = hi - lo;
    let c = cursor as int;
    let k = (i - lo - c) % span;
    assert(0 <= k < span && (c + k) % span == i - lo) by (nonlinear_arith)
        requires
            span > 0,
            0 <= i - lo < span,
            k == (i - lo - c) % span,
    {
        let q = (i - lo - c) / span;
        assert(i - lo - c == q * span + k);
        vstd::arithmetic::div_mod::lemma_mod_multiples_vanish(-q, i - lo, span);
        assert(span * (-q) + (i - lo) == c + k) by (nonlinear_arith)
            requires
                i - lo - c == q * span + k,
        ;
        vstd::arithmetic::div_mod::lemma_small_mod((i - lo) as nat, span as nat);
    }
    lemma_no_room(pools, lo, span, c, capacity, 0, k);
}

/// Creating a region fails for lack of room only when no pool has room.
pub proof fn law_refused_only_without_room(
    pools: Seq<Pool>,
    hot: u32,
    warm: u32,
    capacity: u32,
    t: Residency,
    i: int,
)
    requires
        pool_choice(pools, hot, warm, capacity, t) is None,
        0 <= i < pools.len(),
    ensures
        pools[i].capacity - pools[i].used < capacity,
{
    let n = pools.len() as int;
    let mid = band_split(n);
    if i < mid {
        lemma_band_has_no_room(pools, 0, mid, hot, capacity, i);
    } else {
        lemma_band_has_no_room(pools, mid, n, warm, capacity, i);
    }
}

impl GuestDirectory {
    pub closed spec fn pool_list(&self) -> Seq<Pool> {
        self.pools@
    }

    /// The slot of every id; slot zero is empty.
    pub closed spec fn slot_list(&self) -> Seq<Option<GuestRegion>> {
        self.slots@
    }

    pub closed spec fn hot_cursor(&self) -> u32 {
        self.cursor_hot
    }

    pub closed spec fn warm_cursor(&self) -> u32 {
        self.cursor_warm
    }

    pub open spec fn at(&self, id: u16) -> Option<GuestRegion> {
        if id < self.slot_list().len() {
            self.slot_list()[id as int]
        } else {
            None
        }
    }

    pub open spec fn has(&self, id: u16) -> bool {
        self.at(id) is Some
    }

    /// Region `e` lies inside what its pool has given out.
    pub open spec fn placed(&self, e: GuestRegion) -> bool {
        e.pool_index < self.pool_list().len() && e.base_offset + e.meta.capacity
            <= self.pool_list()[e.pool_index as int].used
    }

    /// Two regions do not share a byte.
    pub open spec fn apart(a: GuestRegion, b: GuestRegion) -> bool {
        a.pool_index != b.pool_index || a.base_offset + a.meta.capacity <= b.base_offset
            || b.base_offset + b.meta.capacity <= a.base_offset
    }

    pub open spec fn wf(&self) -> bool {
        &&& pools_ok(self.pool_list())
        &&& 1 <= self.slot_list().len() <= 0xffff
        &&& self.slot_list()[0] is None
        &&& forall|id: u16| #[trigger]
            self.has(id) ==> self.at(id)->0.wf() && self.at(id)->0.meta.id == id && self.placed(
                self.at(id)->0,
            )
        &&& forall|id: u16|
            1 <= id < self.slot_list().len() ==> #[trigger] self.has(id)
        &&& forall|a: u16, b: u16|
            a != b && #[trigger] self.has(a) && #[trigger] self.has(b) ==> Self::apart(
                self.at(a)->0,
                self.at(b)->0,
            )
        &&& self.hot_cursor() <= self.pool_list().len()
        &&& self.warm_cursor() <= self.pool_list().len()
    }

    /// Nothing changed.
    pub open spec fn same(pre: Self, post: Self) -> bool {
        &&& post.pool_list() == pre.pool_list()
        &&& post.slot_list() == pre.slot_list()
        &&& post.hot_cursor() == pre.hot_cursor()
        &&& post.warm_cursor() == pre.warm_cursor()
    }

    /// Only region `id` changed: it is now `e`.
    pub open spec fn only(pre: Self, post: Self, id: u16, e: GuestRegion) -> bool {
        &&& post.pool_list() == pre.pool_list()
        &&& post.slot_list() == pre.slot_list().update(id as int, Some(e))
        &&& post.hot_cursor() == pre.hot_cursor()
        &&& post.warm_cursor() == pre.warm_cursor()
    }

    /// An unchanged directory stays well formed.
    pub proof fn lemma_same_wf(pre: Self, post: Self)
        requires
            pre.wf(),
            Self::same(pre, post),
        ensures
            post.wf(),
    {
        assert forall|k: u16| post.at(k) == pre.at(k) && #[trigger] post.has(k) == pre.has(k) by {}
    }

    /// A region that stays in its place keeps the directory well formed.
    pub proof fn lemma_only_wf(pre: Self, post: Self, id: u16, e: GuestRegion)
        requires
            pre.wf(),
            pre.has(id),
            Self::only(pre, post, id, e),
            e.wf(),
            e.meta.id == id,
            e.pool_index == pre.at(id)->0.pool_index,
            e.base_offset == pre.at(id)->0.base_offset,
            e.meta.capacity == pre.at(id)->0.meta.capacity,
        ensures
            post.wf(),
            post.at(id) == Some(e),
    {
        assert forall|k: u16| #[trigger] post.has(k) == pre.has(k) by {}
        assert forall|k: u16| #[trigger] post.has(k) implies post.at(k)->0.wf() && post.at(
            k,
        )->0.meta.id == k && post.placed(post.at(k)->0) by {
            assert(pre.has(k));
        }
        assert forall|a: u16, b: u16|
            a != b && #[trigger] post.has(a) && #[trigger] post.has(b) implies Self::apart(
            post.at(a)->0,
            post.at(b)->0,
        ) by {
            assert(pre.has(a) && pre.has(b));
            assert(Self::apart(pre.at(a)->0, pre.at(b)->0));
        }
    }

    /// A directory over the given pools, which must match the memories of the module.
    pub fn new(pools: Vec<Pool>) -> (r: Self)
        requires
            pools_ok(pools@),
        ensures
            r.wf(),
            r.pool_list() == pools@,
            r.slot_list() == seq![None::<GuestRegion>],
            r.hot_cursor() == 0,
            r.warm_cursor() == 0,
    {
        let mut slots: Vec<Option<GuestRegion>> = Vec::new();
        slots.push(None);
        let r = GuestDirectory { pools, slots, cursor_hot: 0, cursor_warm: 0 };
        assert(r.slots@ =~= seq![None::<GuestRegion>]);
        r
    }

    pub fn pools(&self) -> (r: &[Pool])
        ensures
            r@ == self.pool_list(),
    {
        self.pools.as_slice()
    }

    /// The number of slots, with the reserved one.
    pub fn slot_count(&self) -> (r: usize)
        ensures
            r == self.slot_list().len(),
    {
        self.slots.len()
    }

    fn entry(&self, region_id: u16) -> (r: Result<&GuestRegion, TvmError>)
        ensures
            match r {
                Ok(e) => self.has(region_id) && self.at(region_id) == Some(*e),
                Err(err) => !self.has(region_id) && err == TvmError::RegionNotFound(region_id),
            },
    {
        if (region_id as usize) < self.slots.len() {
            match &self.slots[region_id as usize] {
                Some(e) => Ok(e),
                None => Err(TvmError::RegionNotFound(region_id)),
            }
        } else {
            Err(TvmError::RegionNotFound(region_id))
        }
    }

    fn entry_mut(&mut self, region_id: u16) -> (r: Result<&mut GuestRegion, TvmError>)
        ensures
            match r {
                Ok(e) => {
                    &&& old(self).has(region_id)
                    &&& old(self).at(region_id) == Some(*e)
                    &&& Self::only(*old(self), *final(self), region_id, *final(e))
                },
                Err(err) => {
                    &&& !old(self).has(region_id)
                    &&& err == TvmError::RegionNotFound(region_id)
                    &&& Self::same(*old(self), *final(self))
                },
            },
    {
        if (region_id as usize) < self.slots.len() && self.slots[region_id as usize].is_some() {
            match &mut self.slots[region_id as usize] {
                Some(e) => Ok(e),
                None => Err(TvmError::RegionNotFound(region_id)),
            }
        } else {
            Err(TvmError::RegionNotFound(region_id))
        }
    }

    fn search_band(&self, lo: u32, hi: u32, cursor: u32, capacity: u32) -> (r: Option<(u32, u32)>)
        requires
            pools_ok(self.pool_list()),
            lo <= hi <= self.pool_list().len(),
            cursor <= self.pool_list().len(),
        ensures
            match band_choice(self.pool_list(), lo as int, hi as int, cursor, capacity) {
                Some((i, c)) => r == Some((i as u32, c)) && 0 <= i < self.pool_list().len(),
                None => r is None,
            },
    {
        let span: u32 = hi - lo;
        let mut k: u32 = 0;
        while k < span
            invariant
                k <= span,
                span == hi - lo,
                pools_ok(self.pool_list()),
                lo <= hi <= self.pool_list().len(),
                cursor <= self.pool_list().len(),
                first_room(self.pool_list(), lo as int, span as int, cursor as int, capacity, 0)
                    == first_room(
                    self.pool_list(),
                    lo as int,
                    span as int,
                    cursor as int,
                    capacity,
                    k as int,
                ),
            decreases span - k,
        {
            let at: u32 = lo + (cursor + k) % span;
            let pool: Pool = self.pools[at as usize];
            assert(pool == self.pool_list()[lo + (cursor + k) % (span as int)]);
            if pool.capacity - pool.used >= capacity {
                return Some((at, (cursor + k + 1) % span));
            }
            k += 1;
        }
        None
    }

    /// Whether a region of this kind and size could be created now.
    pub fn would_accept(&self, kind: RegionKind, capacity: u32) -> (r: bool)
        requires
            self.wf(),
        ensures
            r == (self.slot_list().len() < 0xffff && pool_choice(
                self.pool_list(),
                self.hot_cursor(),
                self.warm_cursor(),
                capacity,
                policy_of(kind).initial_residency,
            ) is Some),
    {
        if self.slots.len() >= 0xffff {
            return false;
        }
        let n: u32 = self.pools.len() as u32;
        let mid: u32 = (n + 1) / 2;
        self.search_band(0, mid, self.cursor_hot, capacity).is_some() || self.search_band(
            mid,
            n,
            self.cursor_warm,
            capacity,
        ).is_some()
    }

    /// What creating a region does: the next id, a pool by band and round
    /// robin, and the end of what that pool has given out. A failure changes nothing.
    pub open spec fn creates(
        pre: Self,
        kind: RegionKind,
        capacity: u32,
        allocator: AllocatorKind,
        post: Self,
        r: Result<u16, TvmError>,
    ) -> bool {
        let n = pre.slot_list().len();
        let policy = policy_of(kind);
        let refused = r == Err::<u16, TvmError>(TvmError::AllocationFailed) && Self::same(
            pre,
            post,
        );
        if n >= 0xffff {
            refused
        } else {
            match pool_choice(
                pre.pool_list(),
                pre.hot_cursor(),
                pre.warm_cursor(),
                capacity,
                policy.initial_residency,
            ) {
                None => refused,
                Some((i, hot, warm)) => {
                    let pool = pre.pool_list()[i];
                    let e = post.at(n as u16)->0;
                    &&& r == Ok::<u16, TvmError>(n as u16)
                    &&& post.slot_list().len() == n + 1
                    &&& post.slot_list().drop_last() == pre.slot_list()
                    &&& post.has(n as u16)
                    &&& e.meta == (Region {
                        id: n as u16,
                        generation: 1,
                        capacity,
                        used: 0,
                        kind,
                        residency: policy.initial_residency,
                        pinned: false,
                        pinnable: policy.pinnable,
                        spillable: false,
                    })
                    &&& e.pool_index == i
                    &&& e.base_offset == pool.used
                    &&& e.allocator.is_fresh(allocator, capacity)
                    &&& post.pool_list() == pre.pool_list().update(
                        i,
                        Pool { used: (pool.used + capacity) as u32, ..pool },
                    )
                    &&& post.hot_cursor() == hot
                    &&& post.warm_cursor() == warm
                },
            }
        }
    }

    /// Creates a region of `capacity` bytes.
    pub fn create_region(
        &mut self,
        kind: RegionKind,
        capacity: u32,
        allocator: AllocatorKind,
    ) -> (r: Result<u16, TvmError>)
        requires
            old(self).wf(),
        ensures
            final(self).wf(),
            Self::creates(*old(self), kind, capacity, allocator, *final(self), r),
            r is Err ==> *final(self) == *old(self),
    {
        let ghost pre = *self;
        let next: usize = self.slots.len();
        if next >= 0xffff {
            return Err(TvmError::AllocationFailed);
        }
        let id: u16 = next as u16;
        let policy = PlacementPolicy::for_kind(kind);
        let n: u32 = self.pools.len() as u32;
        let mid: u32 = (n + 1) / 2;
        let low_first: bool = match policy.initial_residency {
            Residency::Hot | Residency::External => true,
            Residency::Warm | Residency::Cold => false,
        };
        let low = self.search_band(0, mid, self.cursor_hot, capacity);
        let high = self.search_band(mid, n, self.cursor_warm, capacity);
        let choice: Option<(u32, u32, u32)> = if low_first {
            match low {
                Some((i, c)) => Some((i, c, self.cursor_warm)),
                None => match high {
                    Some((i, c)) => Some((i, self.cursor_hot, c)),
                    None => None,
                },
            }
        } else {
            match high {
                Some((i, c)) => Some((i, self.cursor_hot, c)),
                None => match low {
                    Some((i, c)) => Some((i, c, self.cursor_warm)),
                    None => None,
                },
            }
        };
        let (pool_index, hot, warm): (u32, u32, u32) = match choice {
            Some(c) => c,
            None => return Err(TvmError::AllocationFailed),
        };
        proof {
            lemma_pool_choice(
                pre.pool_list(),
                pre.hot_cursor(),
                pre.warm_cursor(),
                capacity,
                policy.initial_residency,
            );
        }
        let pool: Pool = self.pools[pool_index as usize];
        let entry = GuestRegion {
            meta: Region {
                id,
                generation: 1,
                capacity,
                used: 0,
                kind,
                residency: policy.initial_residency,
                pinned: false,
                pinnable: policy.pinnable,
                spillable: false,
            },
            pool_index,
            base_offset: pool.used,
            allocator: RegionAllocator::new(allocator, capacity),
        };
        let ghost e = entry;
        self.pools.set(pool_index as usize, Pool { used: pool.used + capacity, ..pool });
        self.cursor_hot = hot;
        self.cursor_warm = warm;
        self.slots.push(Some(entry));
        proof {
            assert(self.slots@.drop_last() =~= pre.slot_list());
            assert(!pre.has(id));
            assert forall|k: u16| k != id implies #[trigger] self.has(k) == pre.has(k) && self.at(k)
                == pre.at(k) by {}
            assert forall|k: u16| #[trigger] self.has(k) implies self.at(k)->0.wf() && self.at(
                k,
            )->0.meta.id == k && self.placed(self.at(k)->0) by {
                if k != id {
                    assert(pre.has(k));
                    assert(pre.placed(pre.at(k)->0));
                }
            }
            assert forall|k: u16| 1 <= k < self.slot_list().len() implies #[trigger] self.has(
                k,
            ) by {
                if k != id {
                    assert(pre.has(k));
                }
            }
            assert forall|a: u16, b: u16|
                a != b && #[trigger] self.has(a) && #[trigger] self.has(b) implies Self::apart(
                self.at(a)->0,
                self.at(b)->0,
            ) by {
                if a != id && b != id {
                    assert(pre.has(a) && pre.has(b));
                    assert(Self::apart(pre.at(a)->0, pre.at(b)->0));
                } else if a == id {
                    assert(pre.has(b));
                    assert(pre.placed(pre.at(b)->0));
                } else {
                    assert(pre.has(a));
                    assert(pre.placed(pre.at(a)->0));
                }
            }
        }
        Ok(id)
    }

    /// What an allocation does.
    pub open spec fn allocates(
        pre: Self,
        id: u16,
        size: u32,
        post: Self,
        r: Result<Handle, TvmError>,
    ) -> bool {
        match pre.at(id) {
            None => r == Err::<Handle, TvmError>(TvmError::RegionNotFound(id)) && Self::same(
                pre,
                post,
            ),
            Some(e) => {
                let p = post.at(id)->0;
                &&& post.has(id)
                &&& Self::only(pre, post, id, p)
                &&& match r {
                    Ok(h) => {
                        &&& h.region_id == id
                        &&& h.generation == e.meta.generation
                        &&& RegionAllocator::allocates(
                            e.allocator,
                            size,
                            1,
                            p.allocator,
                            Ok(h.offset),
                        )
                        &&& p == (GuestRegion {
                            meta: Region { used: p.allocator.used_bytes(), ..e.meta },
                            allocator: p.allocator,
                            ..e
                        })
                    },
                    Err(err) => RegionAllocator::allocates(
                        e.allocator,
                        size,
                        1,
                        p.allocator,
                        Err(err),
                    ) && p == e,
                }
            },
        }
    }

    /// Allocates `size` bytes in a region.
    pub fn allocate(&mut self, region_id: u16, size: u32) -> (r: Result<Handle, TvmError>)
        requires
            old(self).wf(),
        ensures
            final(self).wf(),
            Self::allocates(*old(self), region_id, size, *final(self), r),
    {
        let ghost pre = *self;
        let r = match self.entry_mut(region_id) {
            Err(e) => Err(e),
            Ok(entry) => match entry.allocator.allocate(size, 1) {
                Err(e) => Err(e),
                Ok(offset) => {
                    entry.meta.used = entry.allocator.used();
                    Ok(Handle { region_id, generation: entry.meta.generation, offset })
                },
            },
        };
        proof {
            if pre.has(region_id) {
                Self::lemma_only_wf(pre, *self, region_id, self.at(region_id)->0);
            } else {
                Self::lemma_same_wf(pre, *self);
            }
        }
        r
    }

    /// What giving a handle back does.
    pub open spec fn deallocates(pre: Self, h: Handle, post: Self, r: Result<(), TvmError>) -> bool {
        match pre.at(h.region_id) {
            None => r == Err::<(), TvmError>(TvmError::RegionNotFound(h.region_id)) && Self::same(
                pre,
                post,
            ),
            Some(e) => if e.meta.generation != h.generation {
                r == Err::<(), TvmError>(TvmError::StaleHandle) && Self::same(pre, post)
            } else {
                let p = post.at(h.region_id)->0;
                &&& post.has(h.region_id)
                &&& Self::only(pre, post, h.region_id, p)
                &&& match r {
                    Ok(_) => {
                        &&& exists|size: u32| #[trigger]
                            RegionAllocator::deallocates(
                                e.allocator,
                                h.offset,
                                p.allocator,
                                Ok(size),
                            )
                        &&& p == (GuestRegion {
                            meta: Region { used: p.allocator.used_bytes(), ..e.meta },
                            allocator: p.allocator,
                            ..e
                        })
                    },
                    Err(err) => RegionAllocator::deallocates(
                        e.allocator,
                        h.offset,
                        p.allocator,
                        Err(err),
                    ) && p == e,
                }
            },
        }
    }

    pub fn dealloc(&mut self, handle: Handle) -> (r: Result<(), TvmError>)
        requires
            old(self).wf(),
        ensures
            final(self).wf(),
            Self::deallocates(*old(self), handle, *final(self), r),
    {
        let ghost pre = *self;
        match self.entry(handle.region_id) {
            Err(e) => return Err(e),
            Ok(entry) => {
                if entry.meta.generation != handle.generation {
                    return Err(TvmError::StaleHandle);
                }
            },
        }
        let r = match self.entry_mut(handle.region_id) {
            Err(e) => Err(e),
            Ok(entry) => match entry.allocator.dealloc(handle.offset) {
                Err(e) => Err(e),
                Ok(_) => {
                    entry.meta.used = entry.allocator.used();
                    Ok(())
                },
            },
        };
        proof {
            let id = handle.region_id;
            Self::lemma_only_wf(pre, *self, id, self.at(id)->0);
        }
        r
    }

    /// Where a handle points: pool and offset in the pool.
    pub open spec fn resolved(&self, h: Handle) -> Result<(u32, u32), TvmError> {
        match self.at(h.region_id) {
            None => Err(TvmError::RegionNotFound(h.region_id)),
            Some(e) => if e.meta.generation != h.generation {
                Err(TvmError::StaleHandle)
            } else if e.base_offset + h.offset > u32::MAX {
                Err(TvmError::OutOfBounds)
            } else {
                Ok((e.pool_index, (e.base_offset + h.offset) as u32))
            },
        }
    }

    /// Where a handle points.
    pub fn resolve(&self, handle: Handle) -> (r: Result<(u32, u32), TvmError>)
        ensures
            r == self.resolved(handle),
    {
        match self.entry(handle.region_id) {
            Err(e) => Err(e),
            Ok(entry) => {
                if entry.meta.generation != handle.generation {
                    return Err(TvmError::StaleHandle);
                }
                match entry.base_offset.checked_add(handle.offset) {
                    None => Err(TvmError::OutOfBounds),
                    Some(absolute) => Ok((entry.pool_index, absolute)),
                }
            },
        }
    }

    pub fn region_info(&self, region_id: u16) -> (r: Result<&Region, TvmError>)
        ensures
            match self.at(region_id) {
                Some(e) => r matches Ok(m) && *m == e.meta,
                None => r matches Err(err) && err == TvmError::RegionNotFound(region_id),
            },
    {
        match self.entry(region_id) {
            Ok(e) => Ok(&e.meta),
            Err(err) => Err(err),
        }
    }

    /// The pool that a region lives in.
    pub fn pool_of(&self, region_id: u16) -> (r: Result<u32, TvmError>)
        ensures
            r == (match self.at(region_id) {
                Some(e) => Ok::<u32, TvmError>(e.pool_index),
                None => Err(TvmError::RegionNotFound(region_id)),
            }),
    {
        match self.entry(region_id) {
            Ok(e) => Ok(e.pool_index),
            Err(err) => Err(err),
        }
    }

    /// The region with its pinned flag set to `on`.
    pub open spec fn with_pin(e: GuestRegion, on: bool) -> GuestRegion {
        GuestRegion { meta: Region { pinned: on, ..e.meta }, ..e }
    }

    /// What pinning does.
    pub open spec fn pins(pre: Self, id: u16, post: Self, r: Result<(), TvmError>) -> bool {
        match pre.at(id) {
            None => r == Err::<(), TvmError>(TvmError::RegionNotFound(id)) && Self::same(pre, post),
            Some(e) => if e.meta.pinnable {
                r is Ok && Self::only(pre, post, id, Self::with_pin(e, true))
            } else {
                r == Err::<(), TvmError>(TvmError::PolicyViolation) && Self::same(pre, post)
            },
        }
    }

    pub fn pin(&mut self, region_id: u16) -> (r: Result<(), TvmError>)
        requires
            old(self).wf(),
        ensures
            final(self).wf(),
            Self::pins(*old(self), region_id, *final(self), r),
    {
        let ghost pre = *self;
        match self.entry(region_id) {
            Err(e) => return Err(e),
            Ok(entry) => {
                if !entry.meta.pinnable {
                    return Err(TvmError::PolicyViolation);
                }
            },
        }
        match self.entry_mut(region_id) {
            Err(_) => {},
            Ok(entry) => {
                entry.meta.pinned = true;
            },
        }
        proof {
            Self::lemma_only_wf(pre, *self, region_id, self.at(region_id)->0);
        }
        Ok(())
    }

    /// What unpinning does; an unknown id is let pass.
    pub open spec fn unpins(pre: Self, id: u16, post: Self) -> bool {
        match pre.at(id) {
            None => Self::same(pre, post),
            Some(e) => Self::only(pre, post, id, Self::with_pin(e, false)),
        }
    }

    /// Lets a region be compacted again.
    pub fn unpin(&mut self, region_id: u16)
        requires
            old(self).wf(),
        ensures
            final(self).wf(),
            Self::unpins(*old(self), region_id, *final(self)),
    {
        let ghost pre = *self;
        match self.entry_mut(region_id) {
            Err(_) => {},
            Ok(entry) => {
                entry.meta.pinned = false;
            },
        }
        proof {
            if pre.has(region_id) {
                Self::lemma_only_wf(pre, *self, region_id, self.at(region_id)->0);
            } else {
                Self::lemma_same_wf(pre, *self);
            }
        }
    }

    // -----------------------------------------------------------------------
    // Compaction
    // -----------------------------------------------------------------------

    /// Block `i` has to move.
    pub open spec fn moves(blocks: Seq<(u32, u32)>, i: int) -> bool {
        blocks[i].0 != packed_start(blocks, i)
    }

    /// The copy that moves block `i` made `d0` into `d1` and answered `r`.
    pub open spec fn moved<D: Dispatch>(
        d0: D,
        e: GuestRegion,
        blocks: Seq<(u32, u32)>,
        i: int,
        d1: D,
        r: Result<(), TvmError>,
    ) -> bool {
        D::copies(
            d0,
            e.pool_index,
            (e.base_offset + packed_start(blocks, i)) as u32,
            (e.base_offset + blocks[i].0) as u32,
            blocks[i].1,
            d1,
            r,
        )
    }

    /// The blocks below `n` that have to move were moved one after the other in
    /// ascending order, and nothing else was asked of the dispatch.
    pub open spec fn moves_run<D: Dispatch>(
        d0: D,
        e: GuestRegion,
        blocks: Seq<(u32, u32)>,
        n: int,
        d1: D,
    ) -> bool
        decreases n,
    {
        if n <= 0 {
            d1 == d0
        } else if Self::moves(blocks, n - 1) {
            exists|mid: D| #[trigger]
                Self::moved(mid, e, blocks, n - 1, d1, Ok(())) && Self::moves_run(
                    d0,
                    e,
                    blocks,
                    n - 1,
                    mid,
                )
        } else {
            Self::moves_run(d0, e, blocks, n - 1, d1)
        }
    }

    /// The blocks below some block were moved, and moving that one failed.
    pub open spec fn moves_break<D: Dispatch>(
        d0: D,
        e: GuestRegion,
        blocks: Seq<(u32, u32)>,
        d1: D,
        err: TvmError,
    ) -> bool {
        exists|i: int, mid: D|
            0 <= i < blocks.len() && Self::moves(blocks, i) && Self::moves_run(
                d0,
                e,
                blocks,
                i,
                mid,
            ) && #[trigger] Self::moved(mid, e, blocks, i, d1, Err(err))
    }

    /// The region after its blocks have been packed.
    pub open spec fn compacted(e: GuestRegion, p: GuestRegion, remap: HandleRemap) -> bool {
        let blocks = live_blocks(e.allocator->Freelist_0.live());
        &&& p.meta == (Region {
            generation: next_generation(e.meta.generation),
            used: total_size(blocks) as u32,
            ..e.meta
        })
        &&& p.pool_index == e.pool_index
        &&& p.base_offset == e.base_offset
        &&& RegionAllocator::rebuilds(
            e.allocator,
            packed_blocks(blocks),
            e.meta.capacity,
            p.allocator,
        )
        &&& remap.region_id == e.meta.id
        &&& remap.old_generation == e.meta.generation
        &&& remap.new_generation == next_generation(e.meta.generation)
        &&& remap.mapping@ == packed_mapping(blocks)
    }

    /// What compacting a region does: the live blocks are moved towards its
    /// start one by one in ascending order. If a copy fails its error is handed
    /// on and the directory stays as it was. What is refused leaves the pools alone.
    pub open spec fn compacts<D: Dispatch>(
        pre: Self,
        id: u16,
        d0: D,
        post: Self,
        d1: D,
        r: Result<HandleRemap, TvmError>,
    ) -> bool {
        let refused = |e: TvmError|
            r == Err::<HandleRemap, TvmError>(e) && Self::same(pre, post) && d1 == d0;
        match pre.at(id) {
            None => refused(TvmError::RegionNotFound(id)),
            Some(e) => if e.meta.pinned {
                refused(TvmError::Pinned)
            } else if !(e.allocator is Freelist) {
                refused(TvmError::UnsupportedAllocator)
            } else {
                let blocks = live_blocks(e.allocator->Freelist_0.live());
                match r {
                    Ok(remap) => {
                        &&& Self::moves_run(d0, e, blocks, blocks.len() as int, d1)
                        &&& post.has(id)
                        &&& Self::only(pre, post, id, post.at(id)->0)
                        &&& Self::compacted(e, post.at(id)->0, remap)
                    },
                    Err(err) => Self::same(pre, post) && Self::moves_break(d0, e, blocks, d1, err),
                }
            },
        }
    }

    /// Packs the live allocations of a region towards its start.
    pub fn compact_region<D: Dispatch>(&mut self, region_id: u16, dispatch: &mut D) -> (r:
        Result<HandleRemap, TvmError>)
        requires
            old(self).wf(),
            old(dispatch).ready(),
        ensures
            final(self).wf(),
            final(dispatch).ready(),
            Self::compacts(
                *old(self),
                region_id,
                *old(dispatch),
                *final(self),
                *final(dispatch),
                r,
            ),
    {
        let ghost pre = *self;
        let ghost d0 = *dispatch;
        let entry = match self.entry(region_id) {
            Err(e) => return Err(e),
            Ok(e) => e,
        };
        if entry.meta.pinned {
            return Err(TvmError::Pinned);
        }
        let blocks: Vec<(u32, u32)> = match entry.allocator.allocated_blocks() {
            Some(b) => b,
            None => return Err(TvmError::UnsupportedAllocator),
        };
        let ghost e = *entry;
        let pool_index: u32 = entry.pool_index;
        let base_offset: u32 = entry.base_offset;
        let capacity: u32 = entry.meta.capacity;
        let old_generation: u16 = entry.meta.generation;
        let ghost live = e.allocator->Freelist_0.live();
        proof {
            e.allocator.lemma_live_ok();
            lemma_live_blocks_ascend(blocks@, live, capacity);
            lemma_packed_blocks(blocks@, capacity);
            assert(pre.placed(e));
        }
        let mut mapping = OffsetMap::with_capacity(blocks.len());
        let mut new_blocks: Vec<(u32, u32)> = Vec::with_capacity(blocks.len());
        let mut cursor: u32 = 0;
        let mut i: usize = 0;
        assert(blocks@.subrange(0, 0) =~= Seq::empty());
        assert(new_blocks@ =~= packed_blocks(blocks@).subrange(0, 0));
        assert(blocks@.subrange(0, blocks@.len() as int) =~= blocks@);
        while i < blocks.len()
            invariant
                i <= blocks@.len(),
                dispatch.ready(),
                total_size(blocks@) <= capacity,
                blocks@.subrange(0, blocks@.len() as int) == blocks@,
                ascending(blocks@, capacity as int),
                base_offset + capacity <= u32::MAX,
                cursor == packed_start(blocks@, i as int),
                *self == pre,
                *self == *old(self),
                self.wf(),
                self.at(region_id) == Some(e),
                e.pool_index == pool_index,
                e.base_offset == base_offset,
                !e.meta.pinned,
                e.allocator is Freelist,
                blocks@ == live_blocks(e.allocator->Freelist_0.live()),
                mapping@ == packed_mapping(blocks@.subrange(0, i as int)),
                new_blocks@ == packed_blocks(blocks@).subrange(0, i as int),
                d0 == *old(dispatch),
                Self::moves_run(d0, e, blocks@, i as int, *dispatch),
            decreases blocks@.len() - i,
        {
            let (old_off, size) = blocks[i];
            proof {
                lemma_total_prefix_step(blocks@, i as int);
                lemma_total_prefix_monotonic(blocks@, i + 1, blocks@.len() as int);
                lemma_total_prefix_monotonic(blocks@, i as int, blocks@.len() as int);
                assert(block_end(blocks@[i as int]) <= capacity);
                let next = blocks@.subrange(0, i + 1);
                assert(next.drop_last() =~= blocks@.subrange(0, i as int));
                assert(next.last() == blocks@[i as int]);
            }
            if old_off != cursor {
                let ghost mid = *dispatch;
                assert(Self::moves(blocks@, i as int));
                let done = dispatch.intra_pool_copy(
                    pool_index,
                    base_offset + cursor,
                    base_offset + old_off,
                    size,
                );
                let ghost answer = done;
                match done {
                    Err(err) => {
                        assert(Self::moved(mid, e, blocks@, i as int, *dispatch, Err(err)));
                        assert(Self::moves_break(d0, e, blocks@, *dispatch, err));
                        return Err(err);
                    },
                    Ok(u) => {
                        assert(u == ());
                        assert(Self::moved(mid, e, blocks@, i as int, *dispatch, Ok(())));
                    },
                }
            }
            mapping.insert(old_off, cursor);
            new_blocks.push((cursor, size));
            cursor += size;
            i += 1;
            assert(new_blocks@ =~= packed_blocks(blocks@).subrange(0, i as int));
        }
        assert(blocks@.subrange(0, i as int) =~= blocks@);
        assert(new_blocks@ =~= packed_blocks(blocks@));
        let new_generation: u16 = advance_generation(old_generation);
        match self.entry_mut(region_id) {
            Err(err) => return Err(err),
            Ok(entry) => {
                entry.meta.generation = new_generation;
                entry.allocator.rebuild_after_compact(new_blocks.as_slice(), capacity);
                entry.meta.used = entry.allocator.used();
            },
        }
        proof {
            Self::lemma_only_wf(pre, *self, region_id, self.at(region_id)->0);
        }
        Ok(HandleRemap { region_id, old_generation, new_generation, mapping })
    }

    /// The tier of everything that the guest holds: regions never leave memory.
    pub fn _residency_marker(&self) -> (r: Residency)
        ensures
            r == Residency::Hot,
    {
        Residency::Hot
    }
}

// ---------------------------------------------------------------------------
// What compaction does to the pool
// ---------------------------------------------------------------------------

/// The bytes of a pool after the first `n` blocks of a region that starts at
/// `base` have been copied to their packed places, one after the other.
pub open spec fn pool_after(bytes: Seq<u8>, base: int, blocks: Seq<(u32, u32)>, n: int) -> Seq<u8>
    decreases n,
{
    if n <= 0 {
        bytes
    } else {
        let before = pool_after(bytes, base, blocks, n - 1);
        let (off, size) = blocks[n - 1];
        overwritten(
            before,
            base + packed_start(blocks, n - 1),
            before.subrange(base + off, base + off + size),
        )
    }
}

/// A block never moves up, and its packed place ends before the next block starts.
proof fn lemma_packed_start_below(blocks: Seq<(u32, u32)>, limit: int, i: int)
    requires
        ascending(blocks, limit),
        0 <= i < blocks.len(),
    ensures
        0 <= packed_start(blocks, i) <= blocks[i].0,
    decreases i,
{
    if i > 0 {
        lemma_packed_start_below(blocks, limit, i - 1);
        lemma_total_prefix_step(blocks, i - 1);
        assert(block_end(blocks[i - 1]) <= blocks[i].0);
    } else {
        assert(blocks.subrange(0, 0) =~= Seq::empty());
    }
}

proof fn lemma_pool_after(bytes: Seq<u8>, base: int, blocks: Seq<(u32, u32)>, limit: int, n: int)
    requires
        ascending(blocks, limit),
        0 <= base,
        base + limit <= bytes.len(),
        0 <= n <= blocks.len(),
    ensures
        pool_after(bytes, base, blocks, n).len() == bytes.len(),
        forall|i: int, k: int|
            0 <= i < n && 0 <= k < blocks[i].1 ==> #[trigger] pool_after(
                bytes,
                base,
                blocks,
                n,
            )[base + packed_start(blocks, i) + k] == bytes[base + blocks[i].0 + k],
        forall|i: int, k: int|
            n <= i < blocks.len() && 0 <= k < blocks[i].1 ==> #[trigger] pool_after(
                bytes,
                base,
                blocks,
                n,
            )[base + blocks[i].0 + k] == bytes[base + blocks[i].0 + k],
        forall|b: int|
            0 <= b < bytes.len() && (b < base || b >= base + limit) ==> #[trigger] pool_after(
                bytes,
                base,
                blocks,
                n,
            )[b] == bytes[b],
    decreases n,
{
    if n > 0 {
        lemma_pool_after(bytes, base, blocks, limit, n - 1);
        lemma_packed_start_below(blocks, limit, n - 1);
        let before = pool_after(bytes, base, blocks, n - 1);
        let after = pool_after(bytes, base, blocks, n);
        let (off, size) = blocks[n - 1];
        let start = packed_start(blocks, n - 1);
        assert(block_end(blocks[n - 1]) <= limit);
        let data = before.subrange(base + off, base + off + size);
        assert(data.len() == size);
        assert forall|i: int, k: int| 0 <= i < n && 0 <= k < blocks[i].1 implies #[trigger] after[base
            + packed_start(blocks, i) + k] == bytes[base + blocks[i].0 + k] by {
            lemma_packed_start_below(blocks, limit, i);
            assert(block_end(blocks[i]) <= limit);
            if i < n - 1 {
                lemma_total_prefix_step(blocks, i);
                lemma_total_prefix_monotonic(blocks, i + 1, n - 1);
                assert(before[base + packed_start(blocks, i) + k] == bytes[base + blocks[i].0 + k]);
            } else {
                assert(after[base + start + k] == data[k]);
                assert(data[k] == before[base + off + k]);
                assert(before[base + blocks[n - 1].0 + k] == bytes[base + blocks[n - 1].0 + k]);
            }
        }
        assert forall|i: int, k: int|
            n <= i < blocks.len() && 0 <= k < blocks[i].1 implies #[trigger] after[base
            + blocks[i].0 + k] == bytes[base + blocks[i].0 + k] by {
            assert(block_end(blocks[n - 1]) <= blocks[i].0);
            assert(block_end(blocks[i]) <= limit);
            assert(before[base + blocks[i].0 + k] == bytes[base + blocks[i].0 + k]);
        }
        assert forall|b: int|
            0 <= b < bytes.len() && (b < base || b >= base + limit) implies #[trigger] after[b]
            == bytes[b] by {
            assert(before[b] == bytes[b]);
        }
    }
}

/// A dispatch whose copies are memory copies: `mem` tells what a pool holds, and
/// a copy that succeeds leaves the source bytes at the destination and every
/// other byte, and every other pool, as it was.
pub open spec fn copies_faithfully<D: Dispatch>(mem: spec_fn(D, u32) -> Seq<u8>) -> bool {
    forall|d0: D, pool: u32, dst: u32, src: u32, len: u32, d1: D| #[trigger]
        D::copies(d0, pool, dst, src, len, d1, Ok(())) ==> {
            &&& src + len <= mem(d0, pool).len()
            &&& dst + len <= mem(d0, pool).len()
            &&& mem(d1, pool) == overwritten(
                mem(d0, pool),
                dst as int,
                mem(d0, pool).subrange(src as int, src + len),
            )
            &&& forall|other: u32| other != pool ==> #[trigger] mem(d1, other) == mem(d0, other)
        }
}

proof fn lemma_moves_run<D: Dispatch>(
    mem: spec_fn(D, u32) -> Seq<u8>,
    d0: D,
    e: GuestRegion,
    blocks: Seq<(u32, u32)>,
    n: int,
    d1: D,
)
    requires
        copies_faithfully(mem),
        ascending(blocks, e.meta.capacity as int),
        e.base_offset + e.meta.capacity <= u32::MAX,
        e.base_offset + e.meta.capacity <= mem(d0, e.pool_index).len(),
        0 <= n <= blocks.len(),
        GuestDirectory::moves_run(d0, e, blocks, n, d1),
    ensures
        mem(d1, e.pool_index) == pool_after(
            mem(d0, e.pool_index),
            e.base_offset as int,
            blocks,
            n,
        ),
        forall|other: u32| other != e.pool_index ==> #[trigger] mem(d1, other) == mem(d0, other),
    decreases n,
{
    let bytes = mem(d0, e.pool_index);
    let base = e.base_offset as int;
    if n > 0 {
        lemma_packed_start_below(blocks, e.meta.capacity as int, n - 1);
        assert(block_end(blocks[n - 1]) <= e.meta.capacity);
        let (off, size) = blocks[n - 1];
        let before = pool_after(bytes, base, blocks, n - 1);
        lemma_pool_after(bytes, base, blocks, e.meta.capacity as int, n - 1);
        if GuestDirectory::moves(blocks, n - 1) {
            let mid = choose|mid: D| #[trigger]
                GuestDirectory::moved(mid, e, blocks, n - 1, d1, Ok(()))
                    && GuestDirectory::moves_run(d0, e, blocks, n - 1, mid);
            lemma_moves_run(mem, d0, e, blocks, n - 1, mid);
            assert(D::copies(
                mid,
                e.pool_index,
                (base + packed_start(blocks, n - 1)) as u32,
                (base + off) as u32,
                size,
                d1,
                Ok(()),
            ));
        } else {
            lemma_moves_run(mem, d0, e, blocks, n - 1, d1);
            assert(overwritten(before, base + off, before.subrange(base + off, base + off + size))
                =~= before);
        }
    }
}

proof fn lemma_moved_bytes<D: Dispatch>(
    mem: spec_fn(D, u32) -> Seq<u8>,
    d0: D,
    e: GuestRegion,
    blocks: Seq<(u32, u32)>,
    d1: D,
    i: int,
)
    requires
        copies_faithfully(mem),
        ascending(blocks, e.meta.capacity as int),
        e.base_offset + e.meta.capacity <= u32::MAX,
        e.base_offset + e.meta.capacity <= mem(d0, e.pool_index).len(),
        GuestDirectory::moves_run(d0, e, blocks, blocks.len() as int, d1),
        0 <= i < blocks.len(),
    ensures
        ({
            let from = e.base_offset + blocks[i].0;
            let to = e.base_offset + packed_start(blocks, i);
            let size = blocks[i].1;
            let old_bytes = mem(d0, e.pool_index);
            let new_bytes = mem(d1, e.pool_index);
            &&& 0 <= packed_start(blocks, i) <= blocks[i].0
            &&& blocks[i].0 + size <= e.meta.capacity
            &&& new_bytes.len() == old_bytes.len()
            &&& new_bytes.subrange(to, to + size) == old_bytes.subrange(from, from + size)
            &&& forall|b: int|
                0 <= b < old_bytes.len() && (b < e.base_offset || b >= e.base_offset
                    + e.meta.capacity) ==> #[trigger] new_bytes[b] == old_bytes[b]
            &&& forall|other: u32|
                other != e.pool_index ==> #[trigger] mem(d1, other) == mem(d0, other)
        }),
{
    let base = e.base_offset as int;
    let bytes = mem(d0, e.pool_index);
    let cap = e.meta.capacity as int;
    let n = blocks.len() as int;
    lemma_pool_after(bytes, base, blocks, cap, n);
    lemma_moves_run(mem, d0, e, blocks, n, d1);
    lemma_packed_start_below(blocks, cap, i);
    assert(block_end(blocks[i]) <= cap);
    let after = mem(d1, e.pool_index);
    let size = blocks[i].1 as int;
    let from = base + blocks[i].0;
    let to = base + packed_start(blocks, i);
    assert forall|k: int| 0 <= k < size implies #[trigger] after.subrange(to, to + size)[k]
        == bytes.subrange(from, from + size)[k] by {
        assert(after[base + packed_start(blocks, i) + k] == bytes[base + blocks[i].0 + k]);
    }
    assert(after.subrange(to, to + size) =~= bytes.subrange(from, from + size));
}

/// Compaction loses nothing: over a dispatch whose copies are memory copies,
/// every live allocation has its bytes where the migrated handle resolves to,
/// and no byte outside the region has changed, in its pool or in another.
pub proof fn law_guest_compaction_keeps_contents<D: Dispatch>(
    pre: GuestDirectory,
    d0: D,
    post: GuestDirectory,
    d1: D,
    remap: HandleRemap,
    mem: spec_fn(D, u32) -> Seq<u8>,
    handle: Handle,
)
    requires
        pre.wf(),
        GuestDirectory::compacts(pre, handle.region_id, d0, post, d1, Ok(remap)),
        copies_faithfully(mem),
        pre.pool_list()[pre.at(handle.region_id)->0.pool_index as int].capacity <= mem(
            d0,
            pre.at(handle.region_id)->0.pool_index,
        ).len(),
        handle.generation == pre.at(handle.region_id)->0.meta.generation,
        pre.at(handle.region_id)->0.allocator->Freelist_0.live().contains_key(handle.offset),
    ensures
        remap.migrated(handle) is Some,
        ({
            let e = pre.at(handle.region_id)->0;
            let size = e.allocator->Freelist_0.live()[handle.offset];
            let h = remap.migrated(handle)->0;
            let (pool, from) = pre.resolved(handle)->Ok_0;
            let (new_pool, to) = post.resolved(h)->Ok_0;
            &&& pre.resolved(handle) is Ok
            &&& post.resolved(h) is Ok
            &&& new_pool == pool
            &&& h.region_id == handle.region_id
            &&& h.offset + size <= post.at(h.region_id)->0.meta.capacity
            &&& mem(d1, pool).len() == mem(d0, pool).len()
            &&& mem(d1, pool).subrange(to as int, to + size) == mem(d0, pool).subrange(
                from as int,
                from + size,
            )
            &&& forall|b: int|
                0 <= b < mem(d0, pool).len() && (b < e.base_offset || b >= e.base_offset
                    + e.meta.capacity) ==> #[trigger] mem(d1, pool)[b] == mem(d0, pool)[b]
            &&& forall|other: u32| other != pool ==> #[trigger] mem(d1, other) == mem(d0, other)
        }),
{
    let e = pre.at(handle.region_id)->0;
    assert(pre.has(handle.region_id));
    let live = e.allocator->Freelist_0.live();
    let blocks = live_blocks(live);
    e.allocator.lemma_live_ok();
    lemma_live_blocks(live);
    lemma_live_blocks_ascend(blocks, live, e.meta.capacity);
    crate::blocks::lemma_packed_mapping(blocks);
    assert(blocks.contains((handle.offset, live[handle.offset])));
    let i = choose|i: int|
        0 <= i < blocks.len() && blocks[i] == (handle.offset, live[handle.offset]);
    assert(packed_mapping(blocks).contains_key(blocks[i].0));
    lemma_moved_bytes(mem, d0, e, blocks, d1, i);
}

/// Compaction keeps the number of bytes in use and joins the free ones behind
/// them: a request that they can hold is served at the end of the live bytes.
pub proof fn law_guest_compaction_joins_free_space<D: Dispatch>(
    pre: GuestDirectory,
    id: u16,
    d0: D,
    mid: GuestDirectory,
    d1: D,
    remap: HandleRemap,
    size: u32,
    post: GuestDirectory,
    r: Result<Handle, TvmError>,
)
    requires
        pre.wf(),
        GuestDirectory::compacts(pre, id, d0, mid, d1, Ok(remap)),
        0 < size,
        pre.at(id)->0.meta.used + size <= pre.at(id)->0.meta.capacity,
        GuestDirectory::allocates(mid, id, size, post, r),
    ensures
        mid.at(id)->0.meta.used == pre.at(id)->0.meta.used,
        r == Ok::<Handle, TvmError>(
            Handle {
                region_id: id,
                generation: mid.at(id)->0.meta.generation,
                offset: mid.at(id)->0.meta.used,
            },
        ),
{
    let e = pre.at(id)->0;
    assert(pre.has(id));
    let blocks = live_blocks(e.allocator->Freelist_0.live());
    e.allocator.law_allocated_blocks();
    lemma_packed_blocks(blocks, e.meta.capacity);
    let used = e.meta.used;
    let free = mid.at(id)->0.allocator->Freelist_0.free_list();
    assert(free =~= seq![(used, (e.meta.capacity - used) as u32)]);
    assert(1u32 & 0u32 == 0) by (bit_vector);
    assert(aligned_up(used, 1) == Some(used));
    assert(first_fit(free, size, 1, 0) == Some((0int, used)));
}

/// Handles of two regions never point at the same byte of the pools.
pub proof fn law_regions_are_disjoint(dir: GuestDirectory, a: Handle, b: Handle)
    requires
        dir.wf(),
        a.region_id != b.region_id,
        dir.resolved(a) is Ok,
        dir.resolved(b) is Ok,
        a.offset < dir.at(a.region_id)->0.meta.capacity,
        b.offset < dir.at(b.region_id)->0.meta.capacity,
    ensures
        dir.resolved(a)->Ok_0 != dir.resolved(b)->Ok_0,
{
    assert(dir.has(a.region_id) && dir.has(b.region_id));
    assert(GuestDirectory::apart(dir.at(a.region_id)->0, dir.at(b.region_id)->0));
}

/// Two live allocations never share a byte of the pools: of two handles that
/// resolve and whose `size_a` and `size_b` bytes are handed out, in one region or
/// in two, the ranges lie apart and inside their pools. In one region the
/// addresses differ as the offsets do. A bump allocator keeps no record of single
/// allocations; for it `law_guest_allocation_is_apart` holds.
pub proof fn law_live_ranges_are_disjoint(
    dir: GuestDirectory,
    a: Handle,
    size_a: u32,
    b: Handle,
    size_b: u32,
)
    requires
        dir.wf(),
        dir.resolved(a) is Ok,
        dir.resolved(b) is Ok,
        dir.at(a.region_id)->0.allocator.occupied(a.offset, size_a),
        dir.at(b.region_id)->0.allocator.occupied(b.offset, size_b),
        a.region_id != b.region_id || (a.offset != b.offset && !(dir.at(
            a.region_id,
        )->0.allocator is Bump)),
    ensures
        ({
            let (p, x) = dir.resolved(a)->Ok_0;
            let (q, y) = dir.resolved(b)->Ok_0;
            &&& p < dir.pool_list().len() && x + size_a <= dir.pool_list()[p as int].capacity
            &&& q < dir.pool_list().len() && y + size_b <= dir.pool_list()[q as int].capacity
            &&& p != q || x + size_a <= y || y + size_b <= x
            &&& a.region_id == b.region_id ==> p == q && x - y == a.offset - b.offset
        }),
{
    let e = dir.at(a.region_id)->0;
    let f = dir.at(b.region_id)->0;
    assert(dir.has(a.region_id) && dir.has(b.region_id));
    e.allocator.law_occupied_within_capacity(a.offset, size_a);
    f.allocator.law_occupied_within_capacity(b.offset, size_b);
    if a.region_id == b.region_id {
        e.allocator.law_occupied_apart(a.offset, size_a, b.offset, size_b);
    } else {
        assert(GuestDirectory::apart(e, f));
    }
}

/// A new allocation takes bytes of the pools that nothing else has: whatever
/// was handed out before, in any region, resolves as before, stays handed out and
/// lies apart from the new range.
pub proof fn law_guest_allocation_is_apart(
    pre: GuestDirectory,
    size: u32,
    post: GuestDirectory,
    h: Handle,
    a: Handle,
    size_a: u32,
)
    requires
        pre.wf(),
        post.wf(),
        GuestDirectory::allocates(pre, h.region_id, size, post, Ok(h)),
        pre.resolved(a) is Ok,
        pre.at(a.region_id)->0.allocator.occupied(a.offset, size_a),
    ensures
        post.resolved(a) == pre.resolved(a),
        post.resolved(h) is Ok,
        post.at(a.region_id)->0.allocator.occupied(a.offset, size_a),
        post.at(h.region_id)->0.allocator.occupied(h.offset, size),
        ({
            let (p, x) = post.resolved(h)->Ok_0;
            let (q, y) = post.resolved(a)->Ok_0;
            &&& p < post.pool_list().len() && x + size <= post.pool_list()[p as int].capacity
            &&& q < post.pool_list().len() && y + size_a <= post.pool_list()[q as int].capacity
            &&& p != q || x + size <= y || y + size_a <= x
        }),
{
    let e = pre.at(h.region_id)->0;
    let f = pre.at(a.region_id)->0;
    let e1 = post.at(h.region_id)->0;
    assert(pre.has(h.region_id) && pre.has(a.region_id));
    assert(post.has(h.region_id) && post.has(a.region_id));
    f.allocator.law_occupied_within_capacity(a.offset, size_a);
    if a.region_id == h.region_id {
        RegionAllocator::law_allocation_is_apart(
            e.allocator,
            size,
            1,
            e1.allocator,
            h.offset,
            a.offset,
            size_a,
        );
    } else {
        assert(post.at(a.region_id) == pre.at(a.region_id));
        assert(GuestDirectory::apart(e1, f));
        e.allocator.law_allocation_is_taken(size, 1, e1.allocator, h.offset);
    }
    e1.allocator.law_occupied_within_capacity(h.offset, size);
}

/// A handle of an older generation is refused as stale and one of an unknown
/// region as not found; whatever else is refused points past the address space.
pub proof fn law_resolve_refuses(dir: GuestDirectory, h: Handle)
    requires
        dir.wf(),
    ensures
        !dir.has(h.region_id) ==> dir.resolved(h) == Err::<(u32, u32), TvmError>(
            TvmError::RegionNotFound(h.region_id),
        ),
        dir.has(h.region_id) && dir.at(h.region_id)->0.meta.generation != h.generation
            ==> dir.resolved(h) == Err::<(u32, u32), TvmError>(TvmError::StaleHandle),
        dir.has(h.region_id) && dir.at(h.region_id)->0.meta.generation == h.generation && h.offset
            <= dir.at(h.region_id)->0.meta.capacity ==> dir.resolved(h) is Ok,
{
}

} // verus!
