//! A small direct-mapped cache from region id to what validation needs.
use vstd::prelude::*;
use crate::eviction::{counts_toward_resident, resident};
use crate::region::Region;

verus! {

/// How many slots the cache has; a region's slot is its id modulo this.
pub const CACHE_SLOTS: usize = 8;

/// One slot: what is known of one region. A `data_ptr` of zero means that no
/// address is known.
#[derive(Clone, Copy, Debug, PartialEq, Eq, Structural)]
pub struct CacheSlot {
    pub valid: bool,
    pub region_id: u16,
    pub generation: u16,
    pub capacity: u32,
    pub resident: bool,
    pub data_ptr: usize,
    pub data_len: u32,
}

/// What a lookup finds.
#[derive(Clone, Copy, Debug, PartialEq, Eq, Structural)]
pub struct ResolveHit {
    pub generation: u16,
    pub capacity: u32,
    pub resident: bool,
}

/// What a lookup finds, together with the address of the region's bytes.
#[derive(Clone, Copy, Debug, PartialEq, Eq, Structural)]
pub struct FastHit {
    pub generation: u16,
    pub capacity: u32,
    pub resident: bool,
    pub data_ptr: usize,
    pub data_len: u32,
}

/// Direct-mapped cache over region ids, with counters that wrap around.
#[derive(Debug)]
pub struct ResolveCache {
    pub slots: [CacheSlot; CACHE_SLOTS],
    pub hits: u64,
    pub misses: u64,
    pub invalidations: u64,
}

/// The slot that holds nothing.
pub open spec fn empty_slot() -> CacheSlot {
    CacheSlot {
        valid: false,
        region_id: 0,
        generation: 0,
        capacity: 0,
        resident: false,
        data_ptr: 0,
        data_len: 0,
    }
}

/// The slot that belongs to a region id.
pub open spec fn slot_index(region_id: u16) -> int {
    region_id as int % 8
}

/// What is remembered of a region.
pub open spec fn slot_for(region: Region, data_ptr: usize, data_len: u32) -> CacheSlot {
    CacheSlot {
        valid: true,
        region_id: region.id,
        generation: region.generation,
        capacity: region.capacity,
        resident: resident(region.residency),
        data_ptr,
        data_len,
    }
}

/// How many of the first `n` slots are valid.
pub open spec fn valid_count(slots: Seq<CacheSlot>, n: int) -> nat
    decreases n,
{
    if n <= 0 {
        0
    } else {
        valid_count(slots, n - 1) + (if slots[n - 1].valid {
            1nat
        } else {
            0
        })
    }
}

fn index_of(region_id: u16) -> (r: usize)
    ensures
        r == slot_index(region_id),
        r < 8,
{
    (region_id % 8) as usize
}

impl ResolveCache {
    pub open spec fn view(&self) -> Seq<CacheSlot> {
        self.slots@
    }

    /// What is known of a region: its slot, if that holds this very region.
    pub open spec fn known(&self, region_id: u16) -> Option<CacheSlot> {
        let slot = self@[slot_index(region_id)];
        if slot.valid && slot.region_id == region_id {
            Some(slot)
        } else {
            None
        }
    }

    /// A valid slot holds a region whose id belongs there.
    pub open spec fn placed(&self) -> bool {
        &&& self@.len() == 8
        &&& forall|i: int|
            0 <= i < 8 && (#[trigger] self@[i]).valid ==> slot_index(self@[i].region_id) == i
    }

    /// The regions that a lookup finds.
    pub open spec fn found(&self) -> Set<u16> {
        Set::new(|id: u16| self.known(id) is Some)
    }

    /// What forgetting every region does: no slot stays valid, and each that was
    /// counts as one invalidation.
    pub open spec fn forgets_all(pre: Self, post: Self) -> bool {
        &&& post@ == Seq::new(8, |i: int| CacheSlot { valid: false, ..pre@[i] })
        &&& post.invalidations == pre.invalidations.wrapping_add(valid_count(pre@, 8) as u64)
        &&& post.hits == pre.hits
        &&& post.misses == pre.misses
    }

    /// Only the counters may differ.
    pub open spec fn same_slots(pre: Self, post: Self) -> bool {
        post@ == pre@ && post.invalidations == pre.invalidations
    }

    /// The counters are the same.
    pub open spec fn same_counters(pre: Self, post: Self) -> bool {
        post.hits == pre.hits && post.misses == pre.misses && post.invalidations
            == pre.invalidations
    }

    pub fn new() -> (r: Self)
        ensures
            r@ == Seq::new(8, |i: int| empty_slot()),
            r.placed(),
            r.hits == 0 && r.misses == 0 && r.invalidations == 0,
    {
        let empty = CacheSlot {
            valid: false,
            region_id: 0,
            generation: 0,
            capacity: 0,
            resident: false,
            data_ptr: 0,
            data_len: 0,
        };
        let r = ResolveCache {
            slots: [empty, empty, empty, empty, empty, empty, empty, empty],
            hits: 0,
            misses: 0,
            invalidations: 0,
        };
        assert(r@ =~= Seq::new(8, |i: int| empty_slot()));
        r
    }

    pub fn lookup(&mut self, region_id: u16) -> (r: Option<ResolveHit>)
        ensures
            Self::same_slots(*old(self), *final(self)),
            match old(self).known(region_id) {
                Some(s) => {
                    &&& r == Some(
                        ResolveHit {
                            generation: s.generation,
                            capacity: s.capacity,
                            resident: s.resident,
                        },
                    )
                    &&& final(self).hits == old(self).hits.wrapping_add(1)
                    &&& final(self).misses == old(self).misses
                },
                None => {
                    &&& r is None
                    &&& final(self).hits == old(self).hits
                    &&& final(self).misses == old(self).misses.wrapping_add(1)
                },
            },
    {
        let slot: CacheSlot = self.slots[index_of(region_id)];
        if slot.valid && slot.region_id == region_id {
            self.hits = self.hits.wrapping_add(1);
            Some(
                ResolveHit {
                    generation: slot.generation,
                    capacity: slot.capacity,
                    resident: slot.resident,
                },
            )
        } else {
            self.misses = self.misses.wrapping_add(1);
            None
        }
    }

    /// Remembers a region without an address.
    pub fn install(&mut self, region: &Region) -> (r: ResolveHit)
        ensures
            final(self)@ == old(self)@.update(slot_index(region.id), slot_for(*region, 0, 0)),
            old(self).placed() ==> final(self).placed(),
            Self::same_counters(*old(self), *final(self)),
            r == (ResolveHit {
                generation: region.generation,
                capacity: region.capacity,
                resident: resident(region.residency),
            }),
    {
        let hit = self.install_with_data(region, 0, 0);
        ResolveHit { generation: hit.generation, capacity: hit.capacity, resident: hit.resident }
    }

    /// Remembers a region together with the address of its bytes. The slot has
    /// to be invalidated before those bytes go away.
    pub fn install_with_data(&mut self, region: &Region, data_ptr: usize, data_len: u32) -> (r:
        FastHit)
        ensures
            final(self)@ == old(self)@.update(
                slot_index(region.id),
                slot_for(*region, data_ptr, data_len),
            ),
            old(self).placed() ==> final(self).placed(),
            Self::same_counters(*old(self), *final(self)),
            r == (FastHit {
                generation: region.generation,
                capacity: region.capacity,
                resident: resident(region.residency),
                data_ptr,
                data_len,
            }),
    {
        let resident = counts_toward_resident(region.residency);
        self.slots[index_of(region.id)] = CacheSlot {
            valid: true,
            region_id: region.id,
            generation: region.generation,
            capacity: region.capacity,
            resident,
            data_ptr,
            data_len,
        };
        FastHit {
            generation: region.generation,
            capacity: region.capacity,
            resident,
            data_ptr,
            data_len,
        }
    }

    /// Finds a region together with its address; a slot without an address is a miss.
    pub fn lookup_fast(&mut self, region_id: u16) -> (r: Option<FastHit>)
        ensures
            Self::same_slots(*old(self), *final(self)),
            match old(self).known(region_id) {
                Some(s) if s.data_ptr != 0 => {
                    &&& r == Some(
                        FastHit {
                            generation: s.generation,
                            capacity: s.capacity,
                            resident: s.resident,
                            data_ptr: s.data_ptr,
                            data_len: s.data_len,
                        },
                    )
                    &&& final(self).hits == old(self).hits.wrapping_add(1)
                    &&& final(self).misses == old(self).misses
                },
                _ => {
                    &&& r is None
                    &&& final(self).hits == old(self).hits
                    &&& final(self).misses == old(self).misses.wrapping_add(1)
                },
            },
    {
        let slot: CacheSlot = self.slots[index_of(region_id)];
        if slot.valid && slot.region_id == region_id && slot.data_ptr != 0 {
            self.hits = self.hits.wrapping_add(1);
            Some(
                FastHit {
                    generation: slot.generation,
                    capacity: slot.capacity,
                    resident: slot.resident,
                    data_ptr: slot.data_ptr,
                    data_len: slot.data_len,
                },
            )
        } else {
            self.misses = self.misses.wrapping_add(1);
            None
        }
    }

    /// Forgets a region, if its slot holds it.
    pub fn invalidate(&mut self, region_id: u16)
        ensures
            old(self).placed() ==> final(self).placed(),
            match old(self).known(region_id) {
                Some(s) => {
                    &&& final(self)@ == old(self)@.update(
                        slot_index(region_id),
                        CacheSlot { valid: false, ..s },
                    )
                    &&& final(self).invalidations == old(self).invalidations.wrapping_add(1)
                },
                None => final(self)@ == old(self)@ && final(self).invalidations == old(
                    self,
                ).invalidations,
            },
            final(self).hits == old(self).hits,
            final(self).misses == old(self).misses,
    {
        let idx: usize = index_of(region_id);
        let slot: CacheSlot = self.slots[idx];
        if slot.valid && slot.region_id == region_id {
            self.slots[idx] = CacheSlot { valid: false, ..slot };
            self.invalidations = self.invalidations.wrapping_add(1);
        }
    }

    /// Forgets every region.
    pub fn invalidate_all(&mut self)
        ensures
            Self::forgets_all(*old(self), *final(self)),
            final(self).placed(),
    {
        let ghost before = self.slots@;
        let ghost count = self.invalidations;
        let mut i: usize = 0;
        while i < 8
            invariant
                i <= 8,
                self.slots@.len() == 8,
                before.len() == 8,
                before == old(self)@,
                forall|j: int|
                    0 <= j < i ==> #[trigger] self.slots@[j] == (CacheSlot {
                        valid: false,
                        ..before[j]
                    }),
                forall|j: int| i <= j < 8 ==> #[trigger] self.slots@[j] == before[j],
                valid_count(before, i as int) <= i,
                self.invalidations == count.wrapping_add(valid_count(before, i as int) as u64),
                count == old(self).invalidations,
                self.hits == old(self).hits,
                self.misses == old(self).misses,
            decreases 8 - i,
        {
            let slot: CacheSlot = self.slots[i];
            if slot.valid {
                self.invalidations = self.invalidations.wrapping_add(1);
                self.slots[i] = CacheSlot { valid: false, ..slot };
            }
            i += 1;
        }
        assert(self.slots@ =~= Seq::new(8, |i: int| CacheSlot { valid: false, ..before[i] }));
    }
}

impl Default for ResolveCache {
    fn default() -> (r: Self)
        ensures
            r@ == Seq::new(8, |i: int| empty_slot()),
            r.placed(),
            r.hits == 0 && r.misses == 0 && r.invalidations == 0,
    {
        Self::new()
    }
}

/// What was installed is found, until another region takes the slot or the
/// region is invalidated.
pub proof fn law_install_then_known(pre: ResolveCache, region: Region, post: ResolveCache, other: u16)
    requires
        pre@.len() == 8,
        post@ == pre@.update(slot_index(region.id), slot_for(region, 0, 0)),
    ensures
        post.known(region.id) == Some(slot_for(region, 0, 0)),
        slot_index(other) == slot_index(region.id) && other != region.id ==> post.known(other)
            is None,
        slot_index(other) != slot_index(region.id) ==> post.known(other) == pre.known(other),
{
}

/// After invalidation the region is not found, and every other region is as before.
pub proof fn law_invalidate_forgets(pre: ResolveCache, region_id: u16, post: ResolveCache, other: u16)
    requires
        pre@.len() == 8,
        match pre.known(region_id) {
            Some(s) => post@ == pre@.update(
                slot_index(region_id),
                CacheSlot { valid: false, ..s },
            ),
            None => post@ == pre@,
        },
    ensures
        post.known(region_id) is None,
        other != region_id ==> post.known(other) == pre.known(other),
{
}

/// A slot is valid exactly where a lookup of some id of its index finds it, and
/// that id is the only one.
pub proof fn law_known_is_valid_slot(cache: ResolveCache, i: int)
    requires
        cache.placed(),
        0 <= i < 8,
    ensures
        cache@[i].valid <==> exists|id: u16|
            slot_index(id) == i && #[trigger] cache.known(id) is Some,
        forall|a: u16, b: u16|
            (#[trigger] cache.known(a)) is Some && (#[trigger] cache.known(b)) is Some
                && slot_index(a) == slot_index(b) ==> a == b,
{
    if cache@[i].valid {
        assert(cache.known(cache@[i].region_id) is Some);
    }
}

/// The ids that a lookup would find, up to slot `n`.
spec fn found_below(cache: ResolveCache, n: int) -> Set<u16> {
    Set::new(|id: u16| cache.known(id) is Some && slot_index(id) < n)
}

proof fn lemma_found_below(cache: ResolveCache, n: int)
    requires
        cache.placed(),
        0 <= n <= 8,
    ensures
        found_below(cache, n).finite(),
        found_below(cache, n).len() == valid_count(cache@, n),
    decreases n,
{
    if n == 0 {
        assert(found_below(cache, 0) =~= Set::empty());
    } else {
        lemma_found_below(cache, n - 1);
        let rest = found_below(cache, n - 1);
        let slot = cache@[n - 1];
        if slot.valid {
            assert(found_below(cache, n) =~= rest.insert(slot.region_id));
            assert(!rest.contains(slot.region_id));
        } else {
            assert(found_below(cache, n) =~= rest);
        }
    }
}

/// Forgetting every region counts each region that a lookup would have found
/// once, and after it no lookup finds anything. Doing it again changes nothing.
pub proof fn law_invalidate_all_forgets(pre: ResolveCache, mid: ResolveCache, post: ResolveCache)
    requires
        pre.placed(),
        ResolveCache::forgets_all(pre, mid),
        ResolveCache::forgets_all(mid, post),
    ensures
        pre.found().finite(),
        pre.found().len() <= 8,
        mid.invalidations == pre.invalidations.wrapping_add(pre.found().len() as u64),
        mid.hits == pre.hits && mid.misses == pre.misses,
        forall|id: u16| #[trigger] mid.known(id) is None,
        post@ == mid@,
        ResolveCache::same_counters(mid, post),
{
    lemma_found_below(pre, 8);
    assert(found_below(pre, 8) =~= pre.found());
    lemma_valid_count_bounded(pre@, 8);
    lemma_none_valid(mid@, 8);
    assert(post@ =~= mid@);
}

proof fn lemma_valid_count_bounded(slots: Seq<CacheSlot>, n: int)
    requires
        0 <= n,
    ensures
        valid_count(slots, n) <= n,
    decreases n,
{
    if n > 0 {
        lemma_valid_count_bounded(slots, n - 1);
    }
}

proof fn lemma_none_valid(slots: Seq<CacheSlot>, n: int)
    requires
        0 <= n <= slots.len(),
        forall|i: int| 0 <= i < slots.len() ==> !(#[trigger] slots[i]).valid,
    ensures
        valid_count(slots, n) == 0,
    decreases n,
{
    if n > 0 {
        lemma_none_valid(slots, n - 1);
    }
}

} // verus!
