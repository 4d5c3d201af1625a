//! The region directory: regions by id, their residency tiers, and the list of
//! warm regions in order of demotion.
use vstd::prelude::*;
use std::collections::VecDeque;
use crate::allocator::AllocatorKind;
use crate::entry::{count_len, counted_len, fits, fresh_meta, RegionEntry};
use crate::error::{empty_context, set_last_error_context, ErrorContext, TvmError};
use crate::handle::Handle;
use crate::memory_region::MemoryRegion;
use crate::metrics::{zero_metrics, RegionMetrics};
use crate::region::{advance_generation, next_generation, policy_of, PlacementPolicy, Region, RegionKind, Residency};

verus! {

/// The regions of one address space.
pub struct RegionDirectory<M> {
    regions: Vec<Option<RegionEntry<M>>>,
    warm_lru: VecDeque<u16>,
    last_error: Option<ErrorContext>,
}

/// `s` without the first occurrence of `id`.
pub open spec fn without(s: Seq<u16>, id: u16) -> Seq<u16> {
    s.remove_value(id)
}

/// Taking an id out of a list without repetitions leaves exactly the others.
pub proof fn lemma_without(s: Seq<u16>, id: u16)
    requires
        s.no_duplicates(),
    ensures
        without(s, id).no_duplicates(),
        forall|x: u16| #[trigger] without(s, id).contains(x) <==> s.contains(x) && x != id,
{
    s.index_of_first_ensures(id);
    if s.contains(id) {
        let i = s.index_of_first(id)->0;
        let t = s.remove(i);
        assert(without(s, id) == t);
        assert forall|x: u16| #[trigger] t.contains(x) <==> s.contains(x) && x != id by {
            if t.contains(x) {
                let j = choose|j: int| 0 <= j < t.len() && t[j] == x;
                let k = if j < i {
                    j
                } else {
                    j + 1
                };
                assert(s[k] == x);
                assert(x != id);
            }
            if s.contains(x) && x != id {
                let k = choose|k: int| 0 <= k < s.len() && s[k] == x;
                let j = if k < i {
                    k
                } else {
                    k - 1
                };
                assert(t[j] == x);
            }
        }
        assert forall|a: int, b: int| 0 <= a < t.len() && 0 <= b < t.len() && a != b implies t[a]
            != t[b] by {
            let a2 = if a < i {
                a
            } else {
                a + 1
            };
            let b2 = if b < i {
                b
            } else {
                b + 1
            };
            assert(s[a2] != s[b2]);
        }
    }
}

impl<M: MemoryRegion> RegionDirectory<M> {
    /// The slot of every id ever handed out; a destroyed region leaves `None`.
    pub closed spec fn slots(&self) -> Seq<Option<RegionEntry<M>>> {
        self.regions@
    }

    /// Warm regions, most recently demoted first.
    pub closed spec fn lru(&self) -> Seq<u16> {
        self.warm_lru@
    }

    /// What the last error site recorded.
    pub closed spec fn context(&self) -> Option<ErrorContext> {
        self.last_error
    }

    /// The region with this id, if it exists.
    pub open spec fn at(&self, id: u16) -> Option<RegionEntry<M>> {
        if id < self.slots().len() {
            self.slots()[id as int]
        } else {
            None
        }
    }

    pub open spec fn has(&self, id: u16) -> bool {
        self.at(id) is Some
    }

    /// The directory fits together: regions sit at their own id, and the warm
    /// list names existing regions, each once.
    pub open spec fn wf(&self) -> bool {
        &&& self.slots().len() <= 0x1_0000
        &&& forall|id: u16| #[trigger]
            self.has(id) ==> self.at(id)->0.wf() && self.at(id)->0.meta.id == id
        &&& self.lru().no_duplicates()
        &&& forall|id: u16| #[trigger] self.lru().contains(id) ==> self.has(id)
    }

    /// Nothing changed.
    pub open spec fn same(pre: Self, post: Self) -> bool {
        post.slots() == pre.slots() && post.lru() == pre.lru() && post.context() == pre.context()
    }

    /// Only region `id` changed: it is now `e`.
    pub open spec fn only(pre: Self, post: Self, id: u16, e: RegionEntry<M>) -> bool {
        &&& post.slots() == pre.slots().update(id as int, Some(e))
        &&& post.lru() == pre.lru()
        &&& post.context() == pre.context()
    }

    /// Replacing a region by a well-formed one keeps the directory well formed.
    pub proof fn lemma_only_wf(pre: Self, post: Self, id: u16, e: RegionEntry<M>)
        requires
            pre.wf(),
            pre.has(id),
            post.slots() == pre.slots().update(id as int, Some(e)),
            post.lru() == pre.lru(),
            e.wf(),
            e.meta.id == id,
        ensures
            post.wf(),
            post.at(id) == Some(e),
    {
        assert forall|k: u16| #[trigger] post.has(k) implies post.at(k)->0.wf()
            && post.at(k)->0.meta.id == k by {
            if k != id {
                assert(pre.has(k));
            }
        }
        assert forall|k: u16| #[trigger] post.lru().contains(k) implies post.has(k) by {
            assert(pre.has(k));
        }
    }

    /// An unchanged directory stays well formed.
    pub proof fn lemma_same_wf(pre: Self, post: Self)
        requires
            pre.wf(),
            Self::same(pre, post),
        ensures
            post.wf(),
    {
        assert forall|k: u16| post.at(k) == pre.at(k) && #[trigger] post.has(k) == pre.has(k) by {}
        assert forall|k: u16| #[trigger] post.lru().contains(k) implies post.has(k) by {
            assert(pre.has(k));
        }
    }

    /// Well-formedness depends on the slots and the warm list alone.
    pub proof fn lemma_views_wf(pre: Self, post: Self)
        requires
            pre.wf(),
            pre.slots() == post.slots(),
            pre.lru() == post.lru(),
        ensures
            post.wf(),
    {
        assert forall|k: u16| post.at(k) == pre.at(k) && #[trigger] post.has(k) == pre.has(k) by {}
        assert forall|k: u16| #[trigger] post.lru().contains(k) implies post.has(k) by {
            assert(pre.has(k));
        }
    }

    pub fn new() -> (r: Self)
        ensures
            r.wf(),
            r.slots() == Seq::<Option<RegionEntry<M>>>::empty(),
            r.lru() == Seq::<u16>::empty(),
            r.context() is None,
    {
        RegionDirectory { regions: Vec::new(), warm_lru: VecDeque::new(), last_error: None }
    }

    /// The region with this id, for change.
    pub(crate) fn entry_mut(&mut self, region_id: u16) -> (r: Result<
        &mut RegionEntry<M>,
        TvmError,
    >)
        ensures
            match r {
                Ok(e) => {
                    &&& old(self).has(region_id)
                    &&& old(self).at(region_id) == Some(*e)
                    &&& Self::only(*old(self), *final(self), region_id, *final(e))
                },
                Err(err) => {
                    &&& !old(self).has(region_id)
                    &&& err == TvmError::RegionNotFound(region_id)
                    &&& Self::same(*old(self), *final(self))
                },
            },
    {
        if (region_id as usize) < self.regions.len() && self.regions[region_id as usize].is_some() {
            match &mut self.regions[region_id as usize] {
                Some(e) => Ok(e),
                None => Err(TvmError::RegionNotFound(region_id)),
            }
        } else {
            Err(TvmError::RegionNotFound(region_id))
        }
    }

    /// The region with this id.
    pub(crate) fn entry(&self, region_id: u16) -> (r: Result<&RegionEntry<M>, TvmError>)
        ensures
            match r {
                Ok(e) => self.has(region_id) && self.at(region_id) == Some(*e),
                Err(err) => !self.has(region_id) && err == TvmError::RegionNotFound(region_id),
            },
    {
        if (region_id as usize) < self.regions.len() {
            match &self.regions[region_id as usize] {
                Some(e) => Ok(e),
                None => Err(TvmError::RegionNotFound(region_id)),
            }
        } else {
            Err(TvmError::RegionNotFound(region_id))
        }
    }

    /// Takes `region_id` off the warm list.
    pub(crate) fn lru_remove(&mut self, region_id: u16)
        ensures
            final(self).slots() == old(self).slots(),
            final(self).context() == old(self).context(),
            final(self).lru() == without(old(self).lru(), region_id),
    {
        let ghost s = self.warm_lru@;
        let mut i: usize = 0;
        while i < self.warm_lru.len()
            invariant
                *self == *old(self),
                s == self.warm_lru@,
                i <= s.len(),
                forall|j: int| 0 <= j < i ==> s[j] != region_id,
            decreases s.len() - i,
        {
            if self.warm_lru[i] == region_id {
                self.warm_lru.remove(i);
                proof {
                    s.index_of_first_ensures(region_id);
                    assert(s.contains(region_id));
                    let k = s.index_of_first(region_id)->0;
                    assert(k == i);
                }
                return;
            }
            i += 1;
        }
        proof {
            s.index_of_first_ensures(region_id);
            assert(!s.contains(region_id));
        }
    }

    /// Puts `region_id` at the front of the warm list.
    pub(crate) fn lru_push_front(&mut self, region_id: u16)
        ensures
            final(self).slots() == old(self).slots(),
            final(self).context() == old(self).context(),
            final(self).lru() == seq![region_id] + without(old(self).lru(), region_id),
    {
        self.lru_remove(region_id);
        self.warm_lru.push_front(region_id);
        assert(self.warm_lru@ =~= seq![region_id] + without(old(self).lru(), region_id));
    }

    /// The warm region that would be evicted next.
    pub fn warm_lru_back(&self) -> (r: Option<u16>)
        ensures
            r == (if self.lru().len() == 0 {
                None
            } else {
                Some(self.lru().last())
            }),
    {
        let n: usize = self.warm_lru.len();
        if n == 0 {
            None
        } else {
            Some(self.warm_lru[n - 1])
        }
    }

    /// How many regions are on the warm list.
    pub(crate) fn warm_count(&self) -> (r: usize)
        ensures
            r == self.lru().len(),
    {
        self.warm_lru.len()
    }

    /// The region at index `i` of the warm list.
    pub(crate) fn warm_at(&self, i: usize) -> (r: u16)
        requires
            i < self.lru().len(),
        ensures
            r == self.lru()[i as int],
    {
        self.warm_lru[i]
    }

    // -----------------------------------------------------------------------
    // Creation and destruction
    // -----------------------------------------------------------------------

    /// What creating a region does: it gets the next id, generation one and a
    /// fresh allocator; a region that starts warm goes to the front of the warm list.
    pub open spec fn creates(
        pre: Self,
        kind: RegionKind,
        capacity: u32,
        allocator: AllocatorKind,
        policy: PlacementPolicy,
        memory: M,
        post: Self,
        r: Result<u16, TvmError>,
    ) -> bool {
        let n = pre.slots().len();
        if n >= 0x1_0000 {
            r == Err::<u16, TvmError>(TvmError::AllocationFailed) && Self::same(pre, post)
        } else {
            &&& r == Ok::<u16, TvmError>(n as u16)
            &&& post.slots().len() == n + 1
            &&& post.slots().drop_last() == pre.slots()
            &&& post.has(n as u16)
            &&& post.at(n as u16)->0.meta == fresh_meta(n as u16, kind, capacity, policy)
            &&& post.at(n as u16)->0.memory == Some(memory)
            &&& post.at(n as u16)->0.metrics == zero_metrics()
            &&& post.at(n as u16)->0.allocator.is_fresh(allocator, capacity)
            &&& post.lru() == (if policy.initial_residency == Residency::Warm {
                seq![n as u16] + pre.lru()
            } else {
                pre.lru()
            })
            &&& post.context() == pre.context()
        }
    }

    pub fn create_region(&mut self, kind: RegionKind, capacity: u32, memory: M) -> (r: Result<
        u16,
        TvmError,
    >)
        requires
            old(self).wf(),
        ensures
            final(self).wf(),
            Self::creates(
                *old(self),
                kind,
                capacity,
                AllocatorKind::Bump,
                policy_of(kind),
                memory,
                *final(self),
                r,
            ),
    {
        self.create_region_with(kind, capacity, AllocatorKind::Bump, memory)
    }

    pub fn create_region_with(
        &mut self,
        kind: RegionKind,
        capacity: u32,
        allocator: AllocatorKind,
        memory: M,
    ) -> (r: Result<u16, TvmError>)
        requires
            old(self).wf(),
        ensures
            final(self).wf(),
            Self::creates(
                *old(self),
                kind,
                capacity,
                allocator,
                policy_of(kind),
                memory,
                *final(self),
                r,
            ),
    {
        self.create_region_with_policy(
            kind,
            capacity,
            allocator,
            PlacementPolicy::for_kind(kind),
            memory,
        )
    }

    /// The most general constructor: the caller chooses the placement policy.
    pub fn create_region_with_policy(
        &mut self,
        kind: RegionKind,
        capacity: u32,
        allocator: AllocatorKind,
        policy: PlacementPolicy,
        memory: M,
    ) -> (r: Result<u16, TvmError>)
        requires
            old(self).wf(),
        ensures
            final(self).wf(),
            Self::creates(
                *old(self),
                kind,
                capacity,
                allocator,
                policy,
                memory,
                *final(self),
                r,
            ),
    {
        let ghost pre = *self;
        let n: usize = self.regions.len();
        if n > 0xffff {
            return Err(TvmError::AllocationFailed);
        }
        let id: u16 = n as u16;
        let entry = RegionEntry::create(id, kind, capacity, allocator, policy, memory);
        self.regions.push(Some(entry));
        assert(self.regions@.drop_last() =~= pre.slots());
        if policy.initial_residency == Residency::Warm {
            self.warm_lru.push_front(id);
            assert(self.warm_lru@ =~= seq![id] + pre.lru());
        }
        proof {
            assert(!pre.has(id));
            assert(!pre.lru().contains(id));
            let shift = self.lru().len() - pre.lru().len();
            assert forall|k: u16| #[trigger] self.has(k) implies self.at(k)->0.wf()
                && self.at(k)->0.meta.id == k by {
                if k != id {
                    assert(pre.has(k));
                }
            }
            assert forall|k: u16| #[trigger] self.lru().contains(k) implies self.has(k) by {
                if k != id {
                    let j = choose|j: int| 0 <= j < self.lru().len() && self.lru()[j] == k;
                    assert(pre.lru()[j - shift] == k);
                    assert(pre.lru().contains(k));
                    assert(pre.has(k));
                }
            }
            assert(self.lru().no_duplicates());
        }
        Ok(id)
    }

    /// What destroying a region does: its slot stays empty for good, and it
    /// leaves the warm list.
    pub open spec fn destroys(pre: Self, id: u16, post: Self, r: Result<(), TvmError>) -> bool {
        if pre.has(id) {
            &&& r == Ok::<(), TvmError>(())
            &&& post.slots() == pre.slots().update(id as int, None)
            &&& post.lru() == without(pre.lru(), id)
            &&& post.context() == pre.context()
        } else {
            r == Err::<(), TvmError>(TvmError::RegionNotFound(id)) && Self::same(pre, post)
        }
    }

    pub fn destroy_region(&mut self, region_id: u16) -> (r: Result<(), TvmError>)
        requires
            old(self).wf(),
        ensures
            final(self).wf(),
            Self::destroys(*old(self), region_id, *final(self), r),
    {
        let ghost pre = *self;
        if (region_id as usize) >= self.regions.len() || self.regions[region_id as usize].is_none() {
            return Err(TvmError::RegionNotFound(region_id));
        }
        self.regions.set(region_id as usize, None);
        self.lru_remove(region_id);
        proof {
            lemma_without(pre.lru(), region_id);
            assert forall|k: u16| #[trigger] self.has(k) implies pre.has(k) && self.at(k)
                == pre.at(k) && k != region_id by {}
            assert forall|k: u16| #[trigger] self.lru().contains(k) implies self.has(k) by {
                assert(pre.has(k));
            }
        }
        Ok(())
    }

    // -----------------------------------------------------------------------
    // Looking regions up
    // -----------------------------------------------------------------------

    pub fn region_info(&self, region_id: u16) -> (r: Result<&Region, TvmError>)
        ensures
            match self.at(region_id) {
                Some(e) => r matches Ok(m) && *m == e.meta,
                None => r matches Err(err) && err == TvmError::RegionNotFound(region_id),
            },
    {
        match self.entry(region_id) {
            Ok(e) => Ok(&e.meta),
            Err(err) => Err(err),
        }
    }

    pub fn metrics(&self, region_id: u16) -> (r: Result<&RegionMetrics, TvmError>)
        ensures
            match self.at(region_id) {
                Some(e) => r matches Ok(m) && *m == e.metrics,
                None => r matches Err(err) && err == TvmError::RegionNotFound(region_id),
            },
    {
        match self.entry(region_id) {
            Ok(e) => Ok(&e.metrics),
            Err(err) => Err(err),
        }
    }

    /// The metadata of the existing regions among the first `n` slots, by ascending id.
    pub open spec fn listed(slots: Seq<Option<RegionEntry<M>>>, n: int) -> Seq<Region>
        decreases n,
    {
        if n <= 0 {
            Seq::empty()
        } else {
            match slots[n - 1] {
                Some(e) => Self::listed(slots, n - 1).push(e.meta),
                None => Self::listed(slots, n - 1),
            }
        }
    }

    /// The metadata of every region, by ascending id.
    pub fn iter(&self) -> (r: Vec<Region>)
        ensures
            r@ == Self::listed(self.slots(), self.slots().len() as int),
    {
        let mut out: Vec<Region> = Vec::new();
        let mut i: usize = 0;
        while i < self.regions.len()
            invariant
                i <= self.regions@.len(),
                out@ == Self::listed(self.slots(), i as int),
            decreases self.regions@.len() - i,
        {
            if let Some(e) = &self.regions[i] {
                out.push(e.meta);
            }
            i += 1;
        }
        out
    }

    /// The number of regions.
    pub fn len(&self) -> (r: usize)
        ensures
            r == Self::listed(self.slots(), self.slots().len() as int).len(),
    {
        let mut n: usize = 0;
        let mut i: usize = 0;
        while i < self.regions.len()
            invariant
                n <= i <= self.regions@.len(),
                n == Self::listed(self.slots(), i as int).len(),
            decreases self.regions@.len() - i,
        {
            if self.regions[i].is_some() {
                n += 1;
            }
            i += 1;
        }
        n
    }

    pub fn is_empty(&self) -> (r: bool)
        ensures
            r == (Self::listed(self.slots(), self.slots().len() as int).len() == 0),
    {
        self.len() == 0
    }

    /// Takes the context of the most recent error and clears it.
    pub fn take_last_error_context(&mut self) -> (r: Option<ErrorContext>)
        requires
            old(self).wf(),
        ensures
            final(self).wf(),
            r == old(self).context(),
            final(self).context() is None,
            final(self).slots() == old(self).slots(),
            final(self).lru() == old(self).lru(),
    {
        let ghost pre = *self;
        let r = crate::error::take_last_error_context(&mut self.last_error);
        proof {
            Self::lemma_views_wf(pre, *self);
        }
        r
    }

    /// Moves the context of the most recent error into a slot that several
    /// directories share, such as that of a thread. Called behind every operation,
    /// it keeps the latest context of all of them there.
    pub fn hand_over_error_context(&mut self, slot: &mut Option<ErrorContext>)
        requires
            old(self).wf(),
        ensures
            final(self).wf(),
            *final(slot) == (match old(self).context() {
                Some(c) => Some(c),
                None => *old(slot),
            }),
            final(self).context() is None,
            final(self).slots() == old(self).slots(),
            final(self).lru() == old(self).lru(),
    {
        if let Some(ctx) = self.take_last_error_context() {
            set_last_error_context(slot, ctx);
        }
    }

    // -----------------------------------------------------------------------
    // Generations and pinning
    // -----------------------------------------------------------------------

    /// What advancing a generation does.
    pub open spec fn bumped(e: RegionEntry<M>) -> RegionEntry<M> {
        RegionEntry {
            meta: Region { generation: next_generation(e.meta.generation), ..e.meta },
            ..e
        }
    }

    pub fn bump_generation(&mut self, region_id: u16) -> (r: Result<u16, TvmError>)
        requires
            old(self).wf(),
        ensures
            final(self).wf(),
            match old(self).at(region_id) {
                None => r == Err::<u16, TvmError>(TvmError::RegionNotFound(region_id))
                    && Self::same(*old(self), *final(self)),
                Some(e) => r == Ok::<u16, TvmError>(next_generation(e.meta.generation))
                    && Self::only(*old(self), *final(self), region_id, Self::bumped(e)),
            },
    {
        let ghost pre = *self;
        let r = match self.entry_mut(region_id) {
            Err(e) => Err(e),
            Ok(entry) => {
                entry.meta.generation = advance_generation(entry.meta.generation);
                Ok(entry.meta.generation)
            },
        };
        proof {
            if pre.has(region_id) {
                Self::lemma_only_wf(pre, *self, region_id, Self::bumped(pre.at(region_id)->0));
            } else {
                Self::lemma_same_wf(pre, *self);
            }
        }
        r
    }

    /// The region with its pinned flag set to `on`.
    pub open spec fn with_pin(e: RegionEntry<M>, on: bool) -> RegionEntry<M> {
        RegionEntry { meta: Region { pinned: on, ..e.meta }, ..e }
    }

    /// Forbids spilling and demoting; the policy must allow pinning.
    pub fn pin(&mut self, region_id: u16) -> (r: Result<(), TvmError>)
        requires
            old(self).wf(),
        ensures
            final(self).wf(),
            match old(self).at(region_id) {
                None => r == Err::<(), TvmError>(TvmError::RegionNotFound(region_id))
                    && Self::same(*old(self), *final(self)),
                Some(e) => if e.meta.pinnable {
                    r == Ok::<(), TvmError>(()) && Self::only(
                        *old(self),
                        *final(self),
                        region_id,
                        Self::with_pin(e, true),
                    )
                } else {
                    r == Err::<(), TvmError>(TvmError::PolicyViolation) && Self::same(
                        *old(self),
                        *final(self),
                    )
                },
            },
    {
        let ghost pre = *self;
        let r = match self.entry_mut(region_id) {
            Err(e) => Err(e),
            Ok(entry) => entry.pin(),
        };
        proof {
            if r is Ok {
                Self::lemma_only_wf(
                    pre,
                    *self,
                    region_id,
                    Self::with_pin(pre.at(region_id)->0, true),
                );
            } else {
                assert(self.slots() =~= pre.slots());
                Self::lemma_same_wf(pre, *self);
            }
        }
        r
    }

    pub fn unpin(&mut self, region_id: u16) -> (r: Result<(), TvmError>)
        requires
            old(self).wf(),
        ensures
            final(self).wf(),
            match old(self).at(region_id) {
                None => r == Err::<(), TvmError>(TvmError::RegionNotFound(region_id))
                    && Self::same(*old(self), *final(self)),
                Some(e) => r == Ok::<(), TvmError>(()) && Self::only(
                    *old(self),
                    *final(self),
                    region_id,
                    Self::with_pin(e, false),
                ),
            },
    {
        let ghost pre = *self;
        let r = match self.entry_mut(region_id) {
            Err(e) => Err(e),
            Ok(entry) => {
                entry.unpin();
                Ok(())
            },
        };
        proof {
            if pre.has(region_id) {
                Self::lemma_only_wf(
                    pre,
                    *self,
                    region_id,
                    Self::with_pin(pre.at(region_id)->0, false),
                );
            } else {
                Self::lemma_same_wf(pre, *self);
            }
        }
        r
    }

    // -----------------------------------------------------------------------
    // Allocation
    // -----------------------------------------------------------------------

    /// What a failed allocation records.
    pub open spec fn alloc_context(region_id: u16, size: u32, capacity: u32) -> ErrorContext {
        ErrorContext {
            region_id: Some(region_id),
            len: Some(size),
            capacity: Some(capacity),
            note: Some("alloc: requested size exceeds available"),
            ..empty_context()
        }
    }

    /// What an allocation does: the region's allocator decides; a failure
    /// leaves its context behind.
    pub open spec fn allocates(
        pre: Self,
        id: u16,
        size: u32,
        align: u32,
        post: Self,
        r: Result<Handle, TvmError>,
    ) -> bool {
        match pre.at(id) {
            None => r == Err::<Handle, TvmError>(TvmError::RegionNotFound(id)) && Self::same(
                pre,
                post,
            ),
            Some(e) => {
                &&& post.has(id)
                &&& RegionEntry::allocates(e, size, align, post.at(id)->0, r)
                &&& post.slots() == pre.slots().update(id as int, Some(post.at(id)->0))
                &&& post.lru() == pre.lru()
                &&& post.context() == (if r is Ok {
                    pre.context()
                } else {
                    Some(Self::alloc_context(id, size, e.meta.capacity))
                })
            },
        }
    }

    /// Allocates `size` bytes in a region.
    pub fn allocate(&mut self, region_id: u16, size: u32) -> (r: Result<Handle, TvmError>)
        requires
            old(self).wf(),
        ensures
            final(self).wf(),
            Self::allocates(*old(self), region_id, size, 1, *final(self), r),
    {
        self.alloc_aligned(region_id, size, 1)
    }

    pub fn alloc_aligned(&mut self, region_id: u16, size: u32, align: u32) -> (r: Result<
        Handle,
        TvmError,
    >)
        requires
            old(self).wf(),
        ensures
            final(self).wf(),
            Self::allocates(*old(self), region_id, size, align, *final(self), r),
    {
        let ghost pre = *self;
        let capacity: u32 = match self.entry(region_id) {
            Err(e) => return Err(e),
            Ok(entry) => entry.meta.capacity,
        };
        let r = match self.entry_mut(region_id) {
            Err(e) => Err(e),
            Ok(entry) => entry.allocate_aligned(size, align),
        };
        proof {
            Self::lemma_only_wf(pre, *self, region_id, self.at(region_id)->0);
        }
        if r.is_err() {
            let ghost mid = *self;
            set_last_error_context(
                &mut self.last_error,
                ErrorContext {
                    region_id: Some(region_id),
                    generation: None,
                    offset: None,
                    len: Some(size),
                    capacity: Some(capacity),
                    note: Some("alloc: requested size exceeds available"),
                },
            );
            proof {
                Self::lemma_views_wf(mid, *self);
            }
        }
        r
    }

    /// What giving a handle back does.
    pub open spec fn deallocates(
        pre: Self,
        handle: Handle,
        post: Self,
        r: Result<(), TvmError>,
    ) -> bool {
        let id = handle.region_id;
        match pre.at(id) {
            None => r == Err::<(), TvmError>(TvmError::RegionNotFound(id)) && Self::same(pre, post),
            Some(e) => {
                &&& post.has(id)
                &&& RegionEntry::deallocates(e, handle, post.at(id)->0, r)
                &&& Self::only(pre, post, id, post.at(id)->0)
            },
        }
    }

    pub fn dealloc(&mut self, handle: Handle) -> (r: Result<(), TvmError>)
        requires
            old(self).wf(),
        ensures
            final(self).wf(),
            Self::deallocates(*old(self), handle, *final(self), r),
    {
        let ghost pre = *self;
        let r = match self.entry_mut(handle.region_id) {
            Err(e) => Err(e),
            Ok(entry) => entry.dealloc(handle),
        };
        proof {
            if pre.has(handle.region_id) {
                Self::lemma_only_wf(pre, *self, handle.region_id, self.at(handle.region_id)->0);
            } else {
                Self::lemma_same_wf(pre, *self);
            }
        }
        r
    }

    // -----------------------------------------------------------------------
    // Reading and writing
    // -----------------------------------------------------------------------

    /// What a read that leaves the region's bounds records.
    pub open spec fn read_context(e: RegionEntry<M>, handle: Handle, len: nat) -> Option<
        ErrorContext,
    > {
        let n = counted_len(len);
        if e.memory is None || fits(handle.offset, n, e.meta.capacity) {
            None
        } else {
            let overflow = handle.offset + n > u32::MAX;
            Some(
                ErrorContext {
                    region_id: Some(handle.region_id),
                    generation: Some(handle.generation),
                    offset: Some(handle.offset),
                    len: Some(n),
                    capacity: if overflow {
                        None
                    } else {
                        Some(e.meta.capacity)
                    },
                    note: if overflow {
                        Some("read: offset+len overflow u32")
                    } else {
                        Some("read: end > capacity")
                    },
                },
            )
        }
    }

    /// What a read through a handle does.
    pub open spec fn reads(
        pre: Self,
        handle: Handle,
        before: Seq<u8>,
        post: Self,
        after: Seq<u8>,
        r: Result<(), TvmError>,
    ) -> bool {
        let id = handle.region_id;
        match pre.at(id) {
            None => {
                &&& r == Err::<(), TvmError>(TvmError::RegionNotFound(id))
                &&& Self::same(pre, post)
                &&& after == before
            },
            Some(e) => if e.meta.generation != handle.generation {
                &&& r == Err::<(), TvmError>(TvmError::StaleHandle)
                &&& Self::same(pre, post)
                &&& after == before
            } else {
                &&& r == e.read_result(handle.offset, before.len())
                &&& match r {
                    Ok(_) => {
                        &&& handle.offset + before.len() <= e.memory->0.bytes().len()
                        &&& after == e.memory->0.bytes().subrange(
                            handle.offset as int,
                            handle.offset + before.len(),
                        )
                        &&& Self::only(
                            pre,
                            post,
                            id,
                            RegionEntry { metrics: e.metrics.after_read(before.len() as u64), ..e },
                        )
                    },
                    Err(_) => {
                        &&& after == before
                        &&& post.slots() == pre.slots()
                        &&& post.lru() == pre.lru()
                        &&& post.context() == (match Self::read_context(e, handle, before.len()) {
                            Some(c) => Some(c),
                            None => pre.context(),
                        })
                    },
                }
            },
        }
    }

    /// Fills `buf` with the bytes that `handle` points at.
    pub fn read(&mut self, handle: Handle, buf: &mut [u8]) -> (r: Result<(), TvmError>)
        requires
            old(self).wf(),
        ensures
            final(self).wf(),
            final(buf)@.len() == old(buf)@.len(),
            Self::reads(*old(self), handle, old(buf)@, *final(self), final(buf)@, r),
    {
        let ghost pre = *self;
        let len: u32 = count_len(buf.len());
        let mut context: Option<ErrorContext> = None;
        match self.entry(handle.region_id) {
            Err(e) => return Err(e),
            Ok(entry) => {
                if entry.meta.generation != handle.generation {
                    return Err(TvmError::StaleHandle);
                }
                if entry.memory.is_some() {
                    match handle.offset.checked_add(len) {
                        None => {
                            context = Some(
                                ErrorContext {
                                    region_id: Some(handle.region_id),
                                    generation: Some(handle.generation),
                                    offset: Some(handle.offset),
                                    len: Some(len),
                                    capacity: None,
                                    note: Some("read: offset+len overflow u32"),
                                },
                            );
                        },
                        Some(end) => {
                            if end > entry.meta.capacity {
                                context = Some(
                                    ErrorContext {
                                        region_id: Some(handle.region_id),
                                        generation: Some(handle.generation),
                                        offset: Some(handle.offset),
                                        len: Some(len),
                                        capacity: Some(entry.meta.capacity),
                                        note: Some("read: end > capacity"),
                                    },
                                );
                            }
                        },
                    }
                }
            },
        }
        assert(context == Self::read_context(
            pre.at(handle.region_id)->0,
            handle,
            old(buf)@.len(),
        ));
        if let Some(ctx) = context {
            set_last_error_context(&mut self.last_error, ctx);
            proof {
                Self::lemma_views_wf(pre, *self);
            }
            return Err(TvmError::OutOfBounds);
        }
        let r = match self.entry_mut(handle.region_id) {
            Err(e) => Err(e),
            Ok(entry) => entry.read_at(handle.offset, buf),
        };
        proof {
            Self::lemma_only_wf(pre, *self, handle.region_id, self.at(handle.region_id)->0);
            if r is Err {
                assert(self.slots() =~= pre.slots());
            }
        }
        r
    }

    /// What a write through a handle does.
    pub open spec fn writes(
        pre: Self,
        handle: Handle,
        data: Seq<u8>,
        post: Self,
        r: Result<(), TvmError>,
    ) -> bool {
        let id = handle.region_id;
        match pre.at(id) {
            None => r == Err::<(), TvmError>(TvmError::RegionNotFound(id)) && Self::same(pre, post),
            Some(e) => if e.meta.generation != handle.generation {
                r == Err::<(), TvmError>(TvmError::StaleHandle) && Self::same(pre, post)
            } else {
                &&& r == e.write_result(handle.offset, data.len())
                &&& match r {
                    Ok(_) => {
                        &&& post.has(id)
                        &&& RegionEntry::written(e, handle.offset, data, post.at(id)->0)
                        &&& Self::only(pre, post, id, post.at(id)->0)
                    },
                    Err(_) => Self::same(pre, post),
                }
            },
        }
    }

    /// Replaces the bytes that `handle` points at by `data`.
    pub fn write(&mut self, handle: Handle, data: &[u8]) -> (r: Result<(), TvmError>)
        requires
            old(self).wf(),
        ensures
            final(self).wf(),
            Self::writes(*old(self), handle, data@, *final(self), r),
    {
        let ghost pre = *self;
        match self.entry(handle.region_id) {
            Err(e) => return Err(e),
            Ok(entry) => {
                if entry.meta.generation != handle.generation {
                    return Err(TvmError::StaleHandle);
                }
            },
        }
        let r = match self.entry_mut(handle.region_id) {
            Err(e) => Err(e),
            Ok(entry) => entry.write_at(handle.offset, data),
        };
        proof {
            Self::lemma_only_wf(pre, *self, handle.region_id, self.at(handle.region_id)->0);
            if r is Err {
                assert(self.slots() =~= pre.slots());
            }
        }
        r
    }
}

impl<M: MemoryRegion> Default for RegionDirectory<M> {
    fn default() -> (r: Self)
        ensures
            r.wf(),
            r.slots() == Seq::<Option<RegionEntry<M>>>::empty(),
            r.lru() == Seq::<u16>::empty(),
            r.context() is None,
    {
        Self::new()
    }
}

} // verus!
