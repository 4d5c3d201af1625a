//! Allocators that hand out offsets inside one region.
use vstd::prelude::*;
use vstd::std_specs::cmp::OrdSpec;
use vstd::std_specs::iter::IteratorSpec;
use std::collections::BTreeMap;
use crate::error::TvmError;
use crate::blocks::{align_up, aligned_up, ascending, block_end, blocks_map, carved, count_below, first_fit, in_blocks, in_live, lemma_aligned_up, lemma_carved_tiles, lemma_count_below, lemma_live_blocks, lemma_live_blocks_ascend, lemma_live_total_is_used, lemma_first_fit, lemma_nothing_live_one_block, lemma_release_undoes_carve, is_power_of_two, lemma_packed_tiles, lemma_released_tiles, lemma_total_prefix_monotonic, lemma_total_prefix_step, lemma_total_single, lists_live, live_blocks, live_ok, lemma_total_bounded, lemma_lists_live_unique, merged, merged_right, packed_from_zero, released, separated, tail_free, tiles, total_size};

verus! {

broadcast use {vstd::std_specs::btree::group_btree_axioms, vstd::laws_cmp::group_laws_cmp};

/// Which allocator a region uses.
#[derive(Clone, Copy, Debug, PartialEq, Eq, Structural)]
pub enum AllocatorKind {
    Bump,
    Freelist,
    /// All allocations are exactly `class_size` bytes; a trailing partial slot is wasted.
    Slab { class_size: u32 },
}

// ---------------------------------------------------------------------------
// Bump allocation
// ---------------------------------------------------------------------------

/// Hands out ever higher offsets; memory comes back only all at once.
pub struct BumpAllocator {
    capacity: u32,
    used: u32,
}

impl BumpAllocator {
    pub closed spec fn cap(&self) -> u32 {
        self.capacity
    }

    /// The first offset that has not been handed out.
    pub closed spec fn top(&self) -> u32 {
        self.used
    }

    pub open spec fn wf(&self) -> bool {
        self.top() <= self.cap()
    }

    /// Where a request lands: the next aligned offset, if the request fits behind it.
    pub open spec fn place(top: u32, cap: u32, size: u32, align: u32) -> Option<u32> {
        match aligned_up(top, align) {
            Some(at) if at + size <= cap => Some(at),
            _ => None,
        }
    }

    /// What a request does: it is placed behind everything handed out so far,
    /// or it fails and changes nothing.
    pub open spec fn allocates(
        pre: Self,
        size: u32,
        align: u32,
        post: Self,
        r: Result<u32, TvmError>,
    ) -> bool {
        match Self::place(pre.top(), pre.cap(), size, align) {
            Some(at) => {
                &&& r == Ok::<u32, TvmError>(at)
                &&& post.cap() == pre.cap()
                &&& post.top() == at + size
                &&& at >= pre.top()
                &&& at % align == 0
            },
            None => r == Err::<u32, TvmError>(TvmError::AllocationFailed) && post == pre,
        }
    }

    pub fn new(capacity: u32) -> (r: Self)
        ensures
            r.wf(),
            r.cap() == capacity,
            r.top() == 0,
    {
        BumpAllocator { capacity, used: 0 }
    }

    pub fn allocate(&mut self, size: u32, align: u32) -> (r: Result<u32, TvmError>)
        requires
            old(self).wf(),
        ensures
            final(self).wf(),
            Self::allocates(*old(self), size, align, *final(self), r),
    {
        let aligned: u32 = match align_up(self.used, align) {
            Some(a) => a,
            None => return Err(TvmError::AllocationFailed),
        };
        proof {
            lemma_aligned_up(self.used, align);
        }
        let end: u32 = match aligned.checked_add(size) {
            Some(e) => e,
            None => return Err(TvmError::AllocationFailed),
        };
        if end > self.capacity {
            return Err(TvmError::AllocationFailed);
        }
        self.used = end;
        Ok(aligned)
    }

    pub fn used(&self) -> (r: u32)
        ensures
            r == self.top(),
    {
        self.used
    }

    pub fn reset(&mut self)
        ensures
            final(self).wf(),
            final(self).cap() == old(self).cap(),
            final(self).top() == 0,
    {
        self.used = 0;
    }
}

// ---------------------------------------------------------------------------
// Free-list allocation
// ---------------------------------------------------------------------------

/// First-fit allocator over a sorted free list; neighbouring free blocks are
/// merged as soon as they touch.
pub struct FreelistAllocator {
    capacity: u32,
    free: Vec<(u32, u32)>,
    allocated: BTreeMap<u32, u32>,
    used: u32,
}

impl FreelistAllocator {
    pub closed spec fn cap(&self) -> u32 {
        self.capacity
    }

    /// Free (offset, size) blocks in ascending order.
    pub closed spec fn free_list(&self) -> Seq<(u32, u32)> {
        self.free@
    }

    /// Live allocations: offset to size.
    pub closed spec fn live(&self) -> Map<u32, u32> {
        self.allocated@
    }

    /// Bytes in live allocations.
    pub closed spec fn live_bytes(&self) -> u32 {
        self.used
    }

    pub open spec fn wf(&self) -> bool {
        tiles(self.free_list(), self.live(), self.cap(), self.live_bytes())
    }

    /// What a request does: it is cut out of the first block that can serve it,
    /// apart from every live allocation, or it fails and changes nothing.
    pub open spec fn allocates(
        pre: Self,
        size: u32,
        align: u32,
        post: Self,
        r: Result<u32, TvmError>,
    ) -> bool {
        match first_fit(pre.free_list(), size, align, 0) {
            Some((i, at)) if size > 0 => {
                &&& r == Ok::<u32, TvmError>(at)
                &&& post.cap() == pre.cap()
                &&& post.free_list() == carved(pre.free_list(), i, at, size)
                &&& post.live() == pre.live().insert(at, size)
                &&& post.live_bytes() == pre.live_bytes() + size
                &&& at % align == 0
                &&& at + size <= pre.cap()
                &&& !pre.live().contains_key(at)
                &&& forall|k: u32| #[trigger]
                    pre.live().contains_key(k) ==> k + pre.live()[k] <= at || at + size <= k
            },
            _ => r == Err::<u32, TvmError>(TvmError::AllocationFailed) && post == pre,
        }
    }

    /// What giving back does: a live allocation becomes free and merges with
    /// the free blocks it touches; any other offset is refused.
    pub open spec fn deallocates(pre: Self, offset: u32, post: Self, r: Result<u32, TvmError>) -> bool {
        if pre.live().contains_key(offset) {
            let size = pre.live()[offset];
            &&& r == Ok::<u32, TvmError>(size)
            &&& post.cap() == pre.cap()
            &&& post.free_list() == released(pre.free_list(), offset, size)
            &&& post.live() == pre.live().remove(offset)
            &&& post.live_bytes() == pre.live_bytes() - size
        } else {
            r == Err::<u32, TvmError>(TvmError::OutOfBounds) && post == pre
        }
    }

    pub fn new(capacity: u32) -> (r: Self)
        ensures
            r.wf(),
            r.cap() == capacity,
            r.free_list() == seq![(0u32, capacity)],
            r.live() == Map::<u32, u32>::empty(),
            r.live_bytes() == 0,
    {
        let mut free: Vec<(u32, u32)> = Vec::new();
        free.push((0, capacity));
        let r = FreelistAllocator { capacity, free, allocated: BTreeMap::new(), used: 0 };
        proof {
            assert(r.free@ =~= seq![(0u32, capacity)]);
            lemma_total_single((0u32, capacity));
            assert forall|b: int| 0 <= b < capacity implies #[trigger] in_blocks(r.free@, b)
                || in_live(r.allocated@, b) by {
                assert(r.free@[0].0 <= b < block_end(r.free@[0]));
            }
        }
        r
    }

    pub fn used(&self) -> (r: u32)
        ensures
            r == self.live_bytes(),
    {
        self.used
    }

    pub fn capacity(&self) -> (r: u32)
        ensures
            r == self.cap(),
    {
        self.capacity
    }

    /// Serves a request from the first free block that can hold it.
    pub fn allocate(&mut self, size: u32, align: u32) -> (r: Result<u32, TvmError>)
        requires
            old(self).wf(),
        ensures
            final(self).wf(),
            Self::allocates(*old(self), size, align, *final(self), r),
    {
        if size == 0 {
            return Err(TvmError::AllocationFailed);
        }
        let mut i: usize = 0;
        while i < self.free.len()
            invariant
                *self == *old(self),
                i <= self.free.len(),
                size > 0,
                self.wf(),
                first_fit(self.free@, size, align, 0) == first_fit(self.free@, size, align, i as int),
            decreases self.free.len() - i,
        {
            let (block_off, block_size) = self.free[i];
            let aligned: u32 = match align_up(block_off, align) {
                Some(a) => a,
                None => return Err(TvmError::AllocationFailed),
            };
            proof {
                lemma_aligned_up(block_off, align);
            }
            let pad: u32 = aligned - block_off;
            let need: u32 = match pad.checked_add(size) {
                Some(n) => n,
                None => return Err(TvmError::AllocationFailed),
            };
            if need <= block_size {
                let remainder: u32 = block_size - need;
                let ghost free0 = self.free@;
                let ghost live0 = self.allocated@;
                assert(block_end(free0[i as int]) <= self.capacity);
                proof {
                    lemma_carved_tiles(
                        free0,
                        live0,
                        self.capacity,
                        self.used,
                        i as int,
                        aligned,
                        size,
                    );
                }
                if pad == 0 && remainder == 0 {
                    self.free.remove(i);
                } else if pad == 0 {
                    self.free.set(i, (aligned + size, remainder));
                } else if remainder == 0 {
                    self.free.set(i, (block_off, pad));
                } else {
                    self.free.set(i, (block_off, pad));
                    self.free.insert(i + 1, (aligned + size, remainder));
                }
                assert(self.free@ =~= carved(free0, i as int, aligned, size));
                self.allocated.insert(aligned, size);
                self.used += size;
                return Ok(aligned);
            }
            i += 1;
        }
        Err(TvmError::AllocationFailed)
    }

    /// Gives the allocation at `offset` back and returns its size.
    pub fn dealloc(&mut self, offset: u32) -> (r: Result<u32, TvmError>)
        requires
            old(self).wf(),
        ensures
            final(self).wf(),
            Self::deallocates(*old(self), offset, *final(self), r),
    {
        let ghost old_self = *self;
        let size: u32 = match self.allocated.get(&offset) {
            Some(s) => *s,
            None => return Err(TvmError::OutOfBounds),
        };
        proof {
            lemma_released_tiles(self.free@, self.allocated@, self.capacity, self.used, offset);
            lemma_count_below(self.free@, self.capacity as int, offset);
        }
        self.allocated.remove(&offset);
        self.used -= size;
        let pos: usize = self.insertion_point(offset);
        self.free.insert(pos, (offset, size));
        self.coalesce(pos);
        Ok(size)
    }

    /// The number of free blocks that start below `offset`.
    fn insertion_point(&self, offset: u32) -> (r: usize)
        requires
            ascending(self.free@, self.capacity as int),
            separated(self.free@),
        ensures
            r == count_below(self.free@, offset),
            r <= self.free@.len(),
    {
        proof {
            lemma_count_below(self.free@, self.capacity as int, offset);
        }
        let mut pos: usize = 0;
        while pos < self.free.len() && self.free[pos].0 < offset
            invariant
                pos <= self.free@.len(),
                0 <= count_below(self.free@, offset) <= self.free@.len(),
                forall|i: int| 0 <= i < pos ==> (#[trigger] self.free@[i]).0 < offset,
                forall|i: int|
                    count_below(self.free@, offset) <= i < self.free@.len() ==> (
                    #[trigger] self.free@[i]).0 >= offset,
                forall|i: int|
                    0 <= i < count_below(self.free@, offset) ==> (#[trigger] self.free@[i]).0
                        < offset,
            decreases self.free@.len() - pos,
        {
            pos += 1;
        }
        proof {
            let c = count_below(self.free@, offset);
            if pos < c {
                assert(self.free@[pos as int].0 < offset);
            } else if c < pos {
                assert(self.free@[c].0 < offset);
            }
        }
        pos
    }

    /// Merges block `idx` with the neighbours that it touches.
    fn coalesce(&mut self, idx: usize)
        requires
            idx < old(self).free@.len(),
            ascending(old(self).free@, old(self).capacity as int),
        ensures
            final(self).free@ == merged(old(self).free@, idx as int),
            final(self).allocated == old(self).allocated,
            final(self).capacity == old(self).capacity,
            final(self).used == old(self).used,
    {
        let ghost s = self.free@;
        assert(forall|i: int| 0 <= i < s.len() ==> block_end(#[trigger] s[i]) <= self.capacity);
        let n: usize = self.free.len();
        if idx + 1 < n {
            let (a_off, a_size) = self.free[idx];
            let (b_off, b_size) = self.free[idx + 1];
            assert(block_end(s[idx as int]) <= s[idx + 1].0);
            if a_off + a_size == b_off {
                self.free.set(idx, (a_off, a_size + b_size));
                self.free.remove(idx + 1);
            }
        }
        let ghost t = self.free@;
        assert(t =~= merged_right(s, idx as int));
        if idx > 0 {
            let (a_off, a_size) = self.free[idx - 1];
            let (b_off, b_size) = self.free[idx];
            assert(block_end(s[idx - 1]) <= s[idx as int].0);
            assert(block_end(t[idx as int]) <= self.capacity);
            if a_off + a_size == b_off {
                self.free.set(idx - 1, (a_off, a_size + b_size));
                self.free.remove(idx);
            }
            assert(self.free@ =~= merged_right(t, idx - 1));
        }
    }

    /// The live allocations as (offset, size), in ascending order.
    pub fn blocks(&self) -> (r: Vec<(u32, u32)>)
        ensures
            lists_live(r@, self.live()),
            r@ == live_blocks(self.live()),
    {
        let mut out: Vec<(u32, u32)> = Vec::new();
        let entries = self.allocated.iter();
        let ghost keys = entries.remaining().map_values(|kv: (&u32, &u32)| *kv.0);
        let ghost all = entries.remaining();
        for kv in it: entries
            invariant
                out@.len() == it.index(),
                forall|i: int|
                    0 <= i < out@.len() ==> #[trigger] out@[i] == (*it.seq()[i].0, *it.seq()[i].1),
        {
            out.push((*kv.0, *kv.1));
        }
        proof {
            assert(out@.len() == all.len());
            assert forall|i: int, j: int| 0 <= i < j < out@.len() implies (#[trigger] out@[i]).0 < (
            #[trigger] out@[j]).0 by {
                assert(keys[i].cmp_spec(&keys[j]) is Less);
            }
            assert forall|k: u32| #[trigger] self.allocated@.contains_key(k) implies out@.contains(
                (k, self.allocated@[k]),
            ) by {
                assert(all.contains((&k, &self.allocated@[k])));
                let i = choose|i: int| 0 <= i < all.len() && all[i] == (&k, &self.allocated@[k]);
                assert(out@[i] == (k, self.allocated@[k]));
            }
            assert(lists_live(out@, self.allocated@));
            lemma_lists_live_unique(out@, live_blocks(self.allocated@), self.allocated@);
        }
        out
    }

    /// Replaces the state by the given packed layout: all of `new_blocks` live,
    /// everything behind them free.
    pub fn rebuild_after_compact(&mut self, new_blocks: &[(u32, u32)], capacity: u32)
        requires
            packed_from_zero(new_blocks@),
            total_size(new_blocks@) <= capacity,
        ensures
            final(self).wf(),
            final(self).cap() == capacity,
            final(self).live() == blocks_map(new_blocks@),
            final(self).live_bytes() == total_size(new_blocks@),
            final(self).free_list() == tail_free(total_size(new_blocks@), capacity),
    {
        proof {
            lemma_packed_tiles(new_blocks@, capacity);
        }
        self.capacity = capacity;
        self.allocated.clear();
        let mut used: u32 = 0;
        let mut i: usize = 0;
        assert(new_blocks@.subrange(0, 0) =~= Seq::empty());
        while i < new_blocks.len()
            invariant
                i <= new_blocks@.len(),
                total_size(new_blocks@) <= capacity,
                self.capacity == capacity,
                self.allocated@ == blocks_map(new_blocks@.subrange(0, i as int)),
                used == total_size(new_blocks@.subrange(0, i as int)),
            decreases new_blocks@.len() - i,
        {
            let (off, size) = new_blocks[i];
            proof {
                let p = new_blocks@.subrange(0, i + 1);
                assert(p.drop_last() =~= new_blocks@.subrange(0, i as int));
                lemma_total_prefix_step(new_blocks@, i as int);
                lemma_total_prefix_monotonic(new_blocks@, i + 1, new_blocks@.len() as int);
                assert(new_blocks@.subrange(0, new_blocks@.len() as int) =~= new_blocks@);
            }
            self.allocated.insert(off, size);
            used += size;
            i += 1;
        }
        assert(new_blocks@.subrange(0, i as int) =~= new_blocks@);
        self.used = used;
        self.free.clear();
        if used < capacity {
            self.free.push((used, capacity - used));
        }
        assert(self.free@ =~= tail_free(total_size(new_blocks@), capacity));
    }
}

// ---------------------------------------------------------------------------
// Slab allocation
// ---------------------------------------------------------------------------

/// How many whole slots of `class_size` bytes fit into `capacity`.
pub open spec fn slot_count(capacity: u32, class_size: u32) -> int {
    if class_size == 0 {
        0
    } else {
        capacity as int / class_size as int
    }
}

/// `offset` is the start of one of the slots.
pub open spec fn is_slot(capacity: u32, class_size: u32, offset: u32) -> bool {
    class_size != 0 && offset < slot_count(capacity, class_size) * class_size && offset % class_size
        == 0
}

/// The slots in the order in which a fresh slab keeps them: the lowest last.
pub open spec fn all_slots(capacity: u32, class_size: u32) -> Seq<u32> {
    let n = slot_count(capacity, class_size);
    Seq::new(n as nat, |i: int| ((n - 1 - i) * class_size) as u32)
}

proof fn lemma_slots_fit(capacity: u32, class_size: u32)
    ensures
        0 <= slot_count(capacity, class_size) <= capacity,
        0 <= slot_count(capacity, class_size) * class_size <= capacity,
{
    if class_size != 0 {
        let n = capacity as int / class_size as int;
        let c = class_size as int;
        assert(0 <= n * c <= capacity && 0 <= n <= capacity) by (nonlinear_arith)
            requires
                n == capacity as int / c,
                c > 0,
        ;
    }
}

/// A slot ends inside the slots.
proof fn lemma_slot_ends(capacity: u32, class_size: u32, offset: u32)
    requires
        is_slot(capacity, class_size, offset),
    ensures
        offset + class_size <= slot_count(capacity, class_size) * class_size,
{
    let n = slot_count(capacity, class_size);
    let c = class_size as int;
    let k = offset as int / c;
    assert(offset == k * c && k * c + c <= n * c) by (nonlinear_arith)
        requires
            c > 0,
            k == offset as int / c,
            offset as int % c == 0,
            0 <= offset < n * c,
    ;
}

/// Two slots share no byte.
proof fn lemma_slots_apart(class_size: u32, a: u32, b: u32)
    requires
        class_size != 0,
        a % class_size == 0,
        b % class_size == 0,
        a != b,
    ensures
        a + class_size <= b || b + class_size <= a,
{
    let c = class_size as int;
    let j = a as int / c;
    let k = b as int / c;
    assert(a + c <= b || b + c <= a) by (nonlinear_arith)
        requires
            c > 0,
            j == a as int / c,
            k == b as int / c,
            a as int % c == 0,
            b as int % c == 0,
            a != b,
    ;
}

/// Distinct slots are at most as many as there are slots.
proof fn lemma_slots_bounded(capacity: u32, class_size: u32, slots: Seq<u32>)
    requires
        slots.no_duplicates(),
        forall|i: int| 0 <= i < slots.len() ==> is_slot(capacity, class_size, #[trigger] slots[i]),
    ensures
        slots.len() <= slot_count(capacity, class_size),
{
    let n = slot_count(capacity, class_size);
    let c = class_size as int;
    if slots.len() > 0 {
        assert(is_slot(capacity, class_size, slots[0]));
    }
    lemma_slots_fit(capacity, class_size);
    let q = Seq::new(slots.len(), |i: int| slots[i] as int / c);
    assert forall|i: int, j: int| 0 <= i < q.len() && 0 <= j < q.len() && i != j implies q[i]
        != q[j] by {
        assert(is_slot(capacity, class_size, slots[i]) && is_slot(capacity, class_size, slots[j]));
        let x = slots[i] as int;
        let y = slots[j] as int;
        assert(x / c != y / c) by (nonlinear_arith)
            requires
                c > 0,
                x % c == 0,
                y % c == 0,
                x != y,
        ;
    }
    assert(q.no_duplicates());
    q.unique_seq_to_set();
    vstd::set_lib::lemma_int_range(0, n);
    assert forall|v: int| q.to_set().contains(v) implies vstd::set_lib::set_int_range(
        0,
        n,
    ).contains(v) by {
        let i = choose|i: int| 0 <= i < q.len() && q[i] == v;
        assert(is_slot(capacity, class_size, slots[i]));
        let x = slots[i] as int;
        assert(0 <= x / c < n) by (nonlinear_arith)
            requires
                c > 0,
                0 <= x < n * c,
        ;
    }
    vstd::set_lib::lemma_len_subset(q.to_set(), vstd::set_lib::set_int_range(0, n));
}

/// Fixed-size pool. Every allocation is exactly one slot of `class_size` bytes.
pub struct SlabAllocator {
    capacity: u32,
    class_size: u32,
    free_slots: Vec<u32>,
    n_slots: u32,
    used: u32,
}

impl SlabAllocator {
    pub closed spec fn cap(&self) -> u32 {
        self.capacity
    }

    pub closed spec fn class(&self) -> u32 {
        self.class_size
    }

    /// The free slots; the last one is handed out next.
    pub closed spec fn free(&self) -> Seq<u32> {
        self.free_slots@
    }

    /// Bytes in slots that are handed out.
    pub closed spec fn live_bytes(&self) -> u32 {
        self.used
    }

    /// The slot at `offset` is handed out.
    pub open spec fn is_live(&self, offset: u32) -> bool {
        is_slot(self.cap(), self.class(), offset) && !self.free().contains(offset)
    }

    pub closed spec fn wf(&self) -> bool {
        &&& self.n_slots == slot_count(self.capacity, self.class_size)
        &&& self.free_slots@.no_duplicates()
        &&& forall|i: int|
            0 <= i < self.free_slots@.len() ==> is_slot(
                self.capacity,
                self.class_size,
                #[trigger] self.free_slots@[i],
            )
        &&& self.used == (self.n_slots - self.free_slots@.len()) * self.class_size
    }

    /// What a request does: a request of exactly one slot takes the last free
    /// slot; any other request, or one with no slot left, fails.
    pub open spec fn allocates(pre: Self, size: u32, post: Self, r: Result<u32, TvmError>) -> bool {
        if pre.class() != 0 && size == pre.class() && pre.free().len() > 0 {
            &&& r == Ok::<u32, TvmError>(pre.free().last())
            &&& pre.free().last() + size <= pre.cap()
            &&& is_slot(pre.cap(), pre.class(), pre.free().last())
            &&& post.cap() == pre.cap()
            &&& post.class() == pre.class()
            &&& post.free() == pre.free().drop_last()
            &&& post.live_bytes() == pre.live_bytes() + size
            &&& !pre.is_live(pre.free().last())
            &&& post.is_live(pre.free().last())
        } else {
            r == Err::<u32, TvmError>(TvmError::AllocationFailed) && post == pre
        }
    }

    /// What giving back does: a live slot becomes the next to be handed out;
    /// any other offset is refused.
    pub open spec fn deallocates(pre: Self, offset: u32, post: Self, r: Result<u32, TvmError>) -> bool {
        if pre.is_live(offset) {
            &&& r == Ok::<u32, TvmError>(pre.class())
            &&& post.cap() == pre.cap()
            &&& post.class() == pre.class()
            &&& post.free() == pre.free().push(offset)
            &&& post.live_bytes() == pre.live_bytes() - pre.class()
        } else {
            r == Err::<u32, TvmError>(TvmError::OutOfBounds) && post == pre
        }
    }

    pub fn new(capacity: u32, class_size: u32) -> (r: Self)
        ensures
            r.wf(),
            r.cap() == capacity,
            r.class() == class_size,
            r.free() == all_slots(capacity, class_size),
            r.live_bytes() == 0,
    {
        let n_slots: u32 = if class_size == 0 {
            0
        } else {
            capacity / class_size
        };
        proof {
            lemma_slots_fit(capacity, class_size);
        }
        let mut free_slots: Vec<u32> = Vec::new();
        let mut left: u32 = n_slots;
        while left > 0
            invariant
                left <= n_slots,
                n_slots == slot_count(capacity, class_size),
                n_slots * class_size <= capacity,
                free_slots@.len() == n_slots - left,
                forall|i: int|
                    0 <= i < free_slots@.len() ==> #[trigger] free_slots@[i] == (n_slots - 1 - i)
                        * class_size,
            decreases left,
        {
            left -= 1;
            assert(0 <= left * class_size <= n_slots * class_size) by (nonlinear_arith)
                requires
                    0 <= left <= n_slots,
                    0 <= class_size,
            ;
            free_slots.push(left * class_size);
        }
        proof {
            let c = class_size as int;
            assert(free_slots@ =~= all_slots(capacity, class_size));
            assert forall|i: int| 0 <= i < free_slots@.len() implies is_slot(
                capacity,
                class_size,
                #[trigger] free_slots@[i],
            ) by {
                let k = n_slots - 1 - i;
                assert(k * c < n_slots * c && (k * c) % c == 0) by (nonlinear_arith)
                    requires
                        0 <= k < n_slots,
                        c > 0,
                ;
            }
            assert forall|i: int, j: int|
                0 <= i < free_slots@.len() && 0 <= j < free_slots@.len() && i
                    != j implies free_slots@[i] != free_slots@[j] by {
                let a = n_slots - 1 - i;
                let b = n_slots - 1 - j;
                assert(a * c != b * c) by (nonlinear_arith)
                    requires
                        a != b,
                        c > 0,
                ;
            }
        }
        SlabAllocator { capacity, class_size, free_slots, n_slots, used: 0 }
    }

    pub fn used(&self) -> (r: u32)
        ensures
            r == self.live_bytes(),
    {
        self.used
    }

    pub fn class_size(&self) -> (r: u32)
        ensures
            r == self.class(),
    {
        self.class_size
    }

    pub fn capacity(&self) -> (r: u32)
        ensures
            r == self.cap(),
    {
        self.capacity
    }

    pub fn allocate(&mut self, size: u32) -> (r: Result<u32, TvmError>)
        requires
            old(self).wf(),
        ensures
            final(self).wf(),
            Self::allocates(*old(self), size, *final(self), r),
    {
        if self.class_size == 0 || size != self.class_size || self.free_slots.len() == 0 {
            return Err(TvmError::AllocationFailed);
        }
        proof {
            lemma_slots_bounded(self.capacity, self.class_size, self.free_slots@);
            lemma_slots_fit(self.capacity, self.class_size);
        }
        let ghost slots = self.free_slots@;
        let ghost n = self.n_slots as int;
        match self.free_slots.pop() {
            Some(off) => {
                proof {
                    let c = self.class_size as int;
                    let k = n - slots.len();
                    assert(is_slot(self.capacity, self.class_size, slots[slots.len() - 1]));
                    assert(k * c + c == (k + 1) * c && (k + 1) * c <= n * c) by (nonlinear_arith)
                        requires
                            k + 1 <= n,
                            c >= 0,
                    ;
                    let q = off as int / c;
                    assert(off + c <= n * c) by (nonlinear_arith)
                        requires
                            c > 0,
                            off as int % c == 0,
                            off < n * c,
                    ;
                    assert(self.free_slots@ == slots.drop_last());
                    assert(!self.free_slots@.contains(off)) by {
                        if self.free_slots@.contains(off) {
                            let i = choose|i: int|
                                0 <= i < self.free_slots@.len() && self.free_slots@[i] == off;
                            assert(slots[i] == slots[slots.len() - 1]);
                        }
                    }
                    assert(slots.contains(off)) by {
                        assert(slots[slots.len() - 1] == off);
                    }
                    assert forall|i: int| 0 <= i < self.free_slots@.len() implies is_slot(
                        self.capacity,
                        self.class_size,
                        #[trigger] self.free_slots@[i],
                    ) by {
                        assert(self.free_slots@[i] == slots[i]);
                    }
                }
                self.used += self.class_size;
                Ok(off)
            },
            None => Err(TvmError::AllocationFailed),
        }
    }

    fn holds(&self, offset: u32) -> (r: bool)
        ensures
            r == self.free_slots@.contains(offset),
    {
        let mut i: usize = 0;
        while i < self.free_slots.len()
            invariant
                i <= self.free_slots@.len(),
                forall|j: int| 0 <= j < i ==> self.free_slots@[j] != offset,
            decreases self.free_slots@.len() - i,
        {
            if self.free_slots[i] == offset {
                return true;
            }
            i += 1;
        }
        false
    }

    pub fn dealloc(&mut self, offset: u32) -> (r: Result<u32, TvmError>)
        requires
            old(self).wf(),
        ensures
            final(self).wf(),
            Self::deallocates(*old(self), offset, *final(self), r),
    {
        proof {
            lemma_slots_fit(self.capacity, self.class_size);
        }
        if self.class_size == 0 || offset >= self.n_slots * self.class_size || offset
            % self.class_size != 0 {
            return Err(TvmError::OutOfBounds);
        }
        if self.holds(offset) {
            return Err(TvmError::OutOfBounds);
        }
        let ghost slots = self.free_slots@;
        self.free_slots.push(offset);
        proof {
            assert forall|i: int| 0 <= i < self.free_slots@.len() implies is_slot(
                self.capacity,
                self.class_size,
                #[trigger] self.free_slots@[i],
            ) by {
                if i < slots.len() {
                    assert(self.free_slots@[i] == slots[i]);
                }
            }
            assert(self.free_slots@.no_duplicates()) by {
                assert forall|i: int, j: int|
                    0 <= i < self.free_slots@.len() && 0 <= j < self.free_slots@.len() && i
                        != j implies self.free_slots@[i] != self.free_slots@[j] by {
                    if i < slots.len() && j < slots.len() {
                        assert(slots[i] != slots[j]);
                    } else if i < slots.len() {
                        assert(slots.contains(slots[i]));
                    } else {
                        assert(slots.contains(slots[j]));
                    }
                }
            }
            lemma_slots_bounded(self.capacity, self.class_size, self.free_slots@);
            let c = self.class_size as int;
            let k = self.n_slots - slots.len();
            assert(k * c - c == (k - 1) * c && 0 <= (k - 1) * c) by (nonlinear_arith)
                requires
                    k >= 1,
                    c >= 0,
            ;
        }
        self.used -= self.class_size;
        Ok(self.class_size)
    }
}

// ---------------------------------------------------------------------------
// The allocator of a region
// ---------------------------------------------------------------------------

/// The allocator that a region was created with.
pub enum RegionAllocator {
    Bump(BumpAllocator),
    Freelist(FreelistAllocator),
    Slab(SlabAllocator),
}

impl RegionAllocator {
    pub closed spec fn wf(&self) -> bool {
        match *self {
            RegionAllocator::Bump(a) => a.wf(),
            RegionAllocator::Freelist(a) => a.wf(),
            RegionAllocator::Slab(a) => a.wf(),
        }
    }

    pub open spec fn cap(&self) -> u32 {
        match *self {
            RegionAllocator::Bump(a) => a.cap(),
            RegionAllocator::Freelist(a) => a.cap(),
            RegionAllocator::Slab(a) => a.cap(),
        }
    }

    /// Bytes that count as used.
    pub open spec fn used_bytes(&self) -> u32 {
        match *self {
            RegionAllocator::Bump(a) => a.top(),
            RegionAllocator::Freelist(a) => a.live_bytes(),
            RegionAllocator::Slab(a) => a.live_bytes(),
        }
    }

    /// The live allocations of a free-list allocator lie inside the region and apart.
    pub proof fn lemma_live_ok(self)
        requires
            self.wf(),
            self is Freelist,
        ensures
            live_ok(self->Freelist_0.live(), self.cap()),
    {
    }

    /// `size` bytes at `offset` are handed out. A bump allocator keeps no record
    /// of single allocations: everything below its top is.
    pub open spec fn occupied(&self, offset: u32, size: u32) -> bool {
        match *self {
            RegionAllocator::Bump(a) => offset + size <= a.top(),
            RegionAllocator::Freelist(a) => a.live().contains_key(offset) && a.live()[offset]
                == size,
            RegionAllocator::Slab(a) => a.is_live(offset) && size == a.class(),
        }
    }

    /// What is handed out lies inside the region.
    pub proof fn law_occupied_within_capacity(self, offset: u32, size: u32)
        requires
            self.wf(),
            self.occupied(offset, size),
        ensures
            offset + size <= self.cap(),
    {
        match self {
            RegionAllocator::Bump(a) => {},
            RegionAllocator::Freelist(a) => {},
            RegionAllocator::Slab(a) => {
                lemma_slots_fit(a.cap(), a.class());
                lemma_slot_ends(a.cap(), a.class(), offset);
            },
        }
    }

    /// Two live allocations of a free list or a slab share no byte.
    pub proof fn law_occupied_apart(self, a: u32, size_a: u32, b: u32, size_b: u32)
        requires
            self.wf(),
            !(self is Bump),
            self.occupied(a, size_a),
            self.occupied(b, size_b),
            a != b,
        ensures
            a + size_a <= b || b + size_b <= a,
    {
        match self {
            RegionAllocator::Bump(_) => {},
            RegionAllocator::Freelist(f) => {
                assert(f.live().contains_key(a) && f.live().contains_key(b));
            },
            RegionAllocator::Slab(s) => {
                lemma_slots_apart(s.class(), a, b);
            },
        }
    }

    /// An allocation takes bytes that nothing else has: it lies apart from
    /// everything handed out before, which stays handed out, and it is handed
    /// out itself from then on.
    pub proof fn law_allocation_is_apart(
        pre: Self,
        size: u32,
        align: u32,
        post: Self,
        at: u32,
        offset: u32,
        len: u32,
    )
        requires
            pre.wf(),
            Self::allocates(pre, size, align, post, Ok(at)),
            pre.occupied(offset, len),
        ensures
            offset + len <= at || at + size <= offset,
            at + size <= pre.cap(),
            post.occupied(at, size),
            post.occupied(offset, len),
    {
        match (pre, post) {
            (RegionAllocator::Slab(a), RegionAllocator::Slab(b)) => {
                assert(a.free()[a.free().len() - 1] == at);
                assert(a.free().contains(at));
                lemma_slots_apart(a.class(), at, offset);
                assert forall|i: int| 0 <= i < b.free().len() implies b.free()[i] != offset by {
                    assert(a.free()[i] == b.free()[i]);
                }
            },
            _ => {},
        }
    }

    /// What was just allocated is handed out.
    pub proof fn law_allocation_is_taken(self, size: u32, align: u32, post: Self, at: u32)
        requires
            self.wf(),
            Self::allocates(self, size, align, post, Ok(at)),
        ensures
            post.occupied(at, size),
            at + size <= self.cap(),
    {
    }

    /// What a region lists as allocated: only a free list has such a list, and it
    /// is the kind that can be compacted. The list holds exactly the live
    /// allocations in ascending order, none overlaps the next, all lie inside the
    /// region, and their sizes add up to the bytes in use.
    pub proof fn law_allocated_blocks(self)
        requires
            self.wf(),
            self is Freelist,
        ensures
            ({
                let blocks = live_blocks(self->Freelist_0.live());
                &&& lists_live(blocks, self->Freelist_0.live())
                &&& ascending(blocks, self.cap() as int)
                &&& forall|i: int| 0 <= i < blocks.len() ==> (#[trigger] blocks[i]).1 > 0
                &&& total_size(blocks) == self.used_bytes()
            }),
    {
        let a = self->Freelist_0;
        lemma_live_blocks(a.live());
        lemma_live_blocks_ascend(live_blocks(a.live()), a.live(), a.cap());
        lemma_live_total_is_used(a.free_list(), a.live(), a.cap(), a.live_bytes());
    }

    /// Never more bytes are used than there are.
    pub proof fn law_used_within_capacity(self)
        requires
            self.wf(),
        ensures
            self.used_bytes() <= self.cap(),
    {
        match self {
            RegionAllocator::Bump(a) => {},
            RegionAllocator::Freelist(a) => {
                lemma_total_bounded(a.free_list(), a.cap() as int);
            },
            RegionAllocator::Slab(a) => {
                lemma_slots_fit(a.cap(), a.class());
                lemma_slots_bounded(a.cap(), a.class(), a.free());
                let n = slot_count(a.cap(), a.class());
                let f = a.free().len() as int;
                let c = a.class() as int;
                assert((n - f) * c <= n * c) by (nonlinear_arith)
                    requires
                        f >= 0,
                        c >= 0,
                ;
            },
        }
    }

    /// A fresh allocator of the given kind.
    pub open spec fn is_fresh(&self, kind: AllocatorKind, capacity: u32) -> bool {
        match kind {
            AllocatorKind::Bump => self is Bump && self->Bump_0.cap() == capacity
                && self->Bump_0.top() == 0,
            AllocatorKind::Freelist => self is Freelist && self->Freelist_0.cap() == capacity
                && self->Freelist_0.free_list() == seq![(0u32, capacity)]
                && self->Freelist_0.live() == Map::<u32, u32>::empty()
                && self->Freelist_0.live_bytes() == 0,
            AllocatorKind::Slab { class_size } => self is Slab && self->Slab_0.cap() == capacity
                && self->Slab_0.class() == class_size && self->Slab_0.free() == all_slots(
                capacity,
                class_size,
            ) && self->Slab_0.live_bytes() == 0,
        }
    }

    /// What a request does, by kind of allocator. A slab ignores the alignment.
    pub open spec fn allocates(
        pre: Self,
        size: u32,
        align: u32,
        post: Self,
        r: Result<u32, TvmError>,
    ) -> bool {
        match (pre, post) {
            (RegionAllocator::Bump(a), RegionAllocator::Bump(b)) => BumpAllocator::allocates(
                a,
                size,
                align,
                b,
                r,
            ),
            (
                RegionAllocator::Freelist(a),
                RegionAllocator::Freelist(b),
            ) => FreelistAllocator::allocates(a, size, align, b, r),
            (RegionAllocator::Slab(a), RegionAllocator::Slab(b)) => SlabAllocator::allocates(
                a,
                size,
                b,
                r,
            ),
            _ => false,
        }
    }

    /// What giving back does, by kind of allocator. A bump allocator accepts
    /// every offset and does nothing.
    pub open spec fn deallocates(pre: Self, offset: u32, post: Self, r: Result<u32, TvmError>) -> bool {
        match (pre, post) {
            (RegionAllocator::Bump(a), RegionAllocator::Bump(b)) => a == b && r == Ok::<
                u32,
                TvmError,
            >(0),
            (
                RegionAllocator::Freelist(a),
                RegionAllocator::Freelist(b),
            ) => FreelistAllocator::deallocates(a, offset, b, r),
            (RegionAllocator::Slab(a), RegionAllocator::Slab(b)) => SlabAllocator::deallocates(
                a,
                offset,
                b,
                r,
            ),
            _ => false,
        }
    }

    /// What a rebuild does: a free-list allocator takes over the given layout,
    /// the other kinds stay as they are.
    pub open spec fn rebuilds(
        pre: Self,
        blocks: Seq<(u32, u32)>,
        capacity: u32,
        post: Self,
    ) -> bool {
        if pre is Freelist {
            &&& post is Freelist
            &&& post->Freelist_0.cap() == capacity
            &&& post->Freelist_0.live() == blocks_map(blocks)
            &&& post->Freelist_0.live_bytes() == total_size(blocks)
            &&& post->Freelist_0.free_list() == tail_free(total_size(blocks), capacity)
        } else {
            post == pre
        }
    }

    pub fn new(kind: AllocatorKind, capacity: u32) -> (r: Self)
        ensures
            r.wf(),
            r.is_fresh(kind, capacity),
    {
        match kind {
            AllocatorKind::Bump => RegionAllocator::Bump(BumpAllocator::new(capacity)),
            AllocatorKind::Freelist => RegionAllocator::Freelist(FreelistAllocator::new(capacity)),
            AllocatorKind::Slab { class_size } => {
                RegionAllocator::Slab(SlabAllocator::new(capacity, class_size))
            },
        }
    }

    pub fn allocate(&mut self, size: u32, align: u32) -> (r: Result<u32, TvmError>)
        requires
            old(self).wf(),
        ensures
            final(self).wf(),
            Self::allocates(*old(self), size, align, *final(self), r),
    {
        match self {
            RegionAllocator::Bump(a) => a.allocate(size, align),
            RegionAllocator::Freelist(a) => a.allocate(size, align),
            RegionAllocator::Slab(a) => a.allocate(size),
        }
    }

    pub fn dealloc(&mut self, offset: u32) -> (r: Result<u32, TvmError>)
        requires
            old(self).wf(),
        ensures
            final(self).wf(),
            Self::deallocates(*old(self), offset, *final(self), r),
    {
        match self {
            RegionAllocator::Bump(_) => Ok(0),
            RegionAllocator::Freelist(a) => a.dealloc(offset),
            RegionAllocator::Slab(a) => a.dealloc(offset),
        }
    }

    pub fn used(&self) -> (r: u32)
        ensures
            r == self.used_bytes(),
    {
        match self {
            RegionAllocator::Bump(a) => a.used(),
            RegionAllocator::Freelist(a) => a.used(),
            RegionAllocator::Slab(a) => a.used(),
        }
    }

    /// The live allocations as (offset, size) in ascending order; `None` for an
    /// allocator that does not track them.
    pub fn allocated_blocks(&self) -> (r: Option<Vec<(u32, u32)>>)
        ensures
            r is Some <==> self is Freelist,
            self is Freelist ==> r->0@ == live_blocks(self->Freelist_0.live()) && lists_live(
                r->0@,
                self->Freelist_0.live(),
            ),
            self is Freelist && self.wf() ==> ascending(r->0@, self.cap() as int) && total_size(
                r->0@,
            ) == self.used_bytes(),
    {
        proof {
            if self is Freelist && self.wf() {
                self.law_allocated_blocks();
            }
        }
        match self {
            RegionAllocator::Bump(_) => None,
            RegionAllocator::Freelist(a) => Some(a.blocks()),
            RegionAllocator::Slab(_) => None,
        }
    }

    /// Resets a free-list allocator to the given packed layout; does nothing
    /// for the other kinds.
    pub fn rebuild_after_compact(&mut self, new_blocks: &[(u32, u32)], capacity: u32)
        requires
            old(self).wf(),
            packed_from_zero(new_blocks@),
            total_size(new_blocks@) <= capacity,
        ensures
            final(self).wf(),
            Self::rebuilds(*old(self), new_blocks@, capacity, *final(self)),
    {
        if let RegionAllocator::Freelist(a) = self {
            a.rebuild_after_compact(new_blocks, capacity);
        }
    }

    pub fn supports_compaction(&self) -> (r: bool)
        ensures
            r == (self is Freelist),
    {
        matches!(self, RegionAllocator::Freelist(_))
    }
}

/// Giving back an allocation right after it was made restores the allocator:
/// same free list, same live allocations, same byte count.
pub proof fn law_freelist_dealloc_undoes_allocate(
    pre: FreelistAllocator,
    size: u32,
    align: u32,
    mid: FreelistAllocator,
    at: u32,
    post: FreelistAllocator,
    r: Result<u32, TvmError>,
)
    requires
        pre.wf(),
        FreelistAllocator::allocates(pre, size, align, mid, Ok(at)),
        FreelistAllocator::deallocates(mid, at, post, r),
    ensures
        r == Ok::<u32, TvmError>(size),
        post.free_list() == pre.free_list(),
        post.live() == pre.live(),
        post.live_bytes() == pre.live_bytes(),
        post.cap() == pre.cap(),
{
    let (i, a) = first_fit(pre.free_list(), size, align, 0)->0;
    lemma_first_fit(pre.free_list(), size, align, 0);
    let block = pre.free_list()[i];
    assert(block_end(block) <= pre.cap());
    lemma_aligned_up(block.0, align);
    lemma_release_undoes_carve(pre.free_list(), pre.cap(), i, a, size);
    assert(post.live() =~= pre.live());
}

/// A free-list allocator with nothing live has its whole capacity in one free
/// block, so a request for all of it succeeds.
pub proof fn law_freelist_empty_is_whole(a: FreelistAllocator, size: u32)
    requires
        a.wf(),
        a.live() == Map::<u32, u32>::empty(),
        0 < size <= a.cap(),
    ensures
        a.free_list() == seq![(0u32, a.cap())],
        a.live_bytes() == 0,
        first_fit(a.free_list(), size, 1, 0) == Some((0int, 0u32)),
{
    lemma_nothing_live_one_block(a.free_list(), a.cap(), a.live_bytes());
    assert(1u32 & 0u32 == 0u32) by (bit_vector);
    assert(is_power_of_two(1));
    lemma_aligned_up(0, 1);
}

/// A slab never fragments: a request for one slot succeeds exactly when fewer
/// than all slots are handed out.
pub proof fn law_slab_never_fragments(
    pre: SlabAllocator,
    post: SlabAllocator,
    r: Result<u32, TvmError>,
)
    requires
        pre.wf(),
        pre.class() != 0,
        SlabAllocator::allocates(pre, pre.class(), post, r),
    ensures
        r is Ok <==> pre.live_bytes() + pre.class() <= slot_count(pre.cap(), pre.class())
            * pre.class(),
{
    let n = slot_count(pre.cap(), pre.class());
    let c = pre.class() as int;
    let f = pre.free().len() as int;
    lemma_slots_bounded(pre.cap(), pre.class(), pre.free());
    assert((n - f) * c + c <= n * c <==> f > 0) by (nonlinear_arith)
        requires
            c > 0,
            f >= 0,
    ;
}

/// A slot given back is the next one handed out.
pub proof fn law_slab_reuses_slot(
    pre: SlabAllocator,
    offset: u32,
    mid: SlabAllocator,
    post: SlabAllocator,
    r: Result<u32, TvmError>,
)
    requires
        pre.wf(),
        pre.is_live(offset),
        SlabAllocator::deallocates(pre, offset, mid, Ok(pre.class())),
        SlabAllocator::allocates(mid, pre.class(), post, r),
    ensures
        r == Ok::<u32, TvmError>(offset),
        post.free() == pre.free(),
        post.live_bytes() == pre.live_bytes(),
{
    assert(pre.free().push(offset).drop_last() =~= pre.free());
}

} // verus!
