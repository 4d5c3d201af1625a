//! Moving handles across a compaction.
use vstd::prelude::*;
use crate::handle::Handle;

verus! {

/// A hash map from old offsets to new ones.
#[verifier::external_body]
#[derive(Debug)]
pub struct OffsetMap {
    inner: hashbrown::HashMap<u32, u32>,
}

/// What an offset map holds: old offset to new offset.
pub uninterp spec fn offset_entries(m: OffsetMap) -> Map<u32, u32>;

/// The most room that is set aside at once.
pub const ROOM_AT_ONCE: usize = 0x100_0000;

/// `hashbrown::HashMap::with_capacity`: a map without entries. How much is set
/// aside for later entries is left unsaid. A capacity that no table can have makes it
/// panic, so the capacity is bounded.
#[verifier::external_body]
fn map_with_capacity(capacity: usize) -> (r: OffsetMap)
    requires
        capacity <= ROOM_AT_ONCE,
    ensures
        offset_entries(r).is_empty(),
{
    OffsetMap { inner: hashbrown::HashMap::with_capacity(capacity) }
}

/// `hashbrown::HashMap::insert`: binds the key to the value, in place of any
/// earlier value, and leaves every other key as it was.
#[verifier::external_body]
fn map_insert(m: &mut OffsetMap, key: u32, value: u32)
    ensures
        offset_entries(*final(m)) == offset_entries(*old(m)).insert(key, value),
{
    m.inner.insert(key, value);
}

/// `hashbrown::HashMap::get`: the value bound to the key, if there is one.
#[verifier::external_body]
fn map_get<'a>(m: &'a OffsetMap, key: &u32) -> (r: Option<&'a u32>)
    ensures
        match r {
            Some(v) => offset_entries(*m).contains_key(*key) && *v == offset_entries(*m)[*key],
            None => !offset_entries(*m).contains_key(*key),
        },
{
    m.inner.get(key)
}

/// `hashbrown::HashMap::len`: the number of keys that are bound.
#[verifier::external_body]
fn map_len(m: &OffsetMap) -> (r: usize)
    ensures
        r == offset_entries(*m).len(),
{
    m.inner.len()
}

/// `Clone` for `hashbrown::HashMap`: a map with the same entries.
#[verifier::external_body]
fn map_clone(m: &OffsetMap) -> (r: OffsetMap)
    ensures
        offset_entries(r) == offset_entries(*m),
{
    OffsetMap { inner: m.inner.clone() }
}

impl Clone for OffsetMap {
    fn clone(&self) -> (r: Self)
        ensures
            r@ == self@,
    {
        map_clone(self)
    }
}

impl OffsetMap {
    pub open spec fn view(&self) -> Map<u32, u32> {
        offset_entries(*self)
    }

    /// An empty map with room for `capacity` entries, as far as it is set aside at once.
    pub fn with_capacity(capacity: usize) -> (r: Self)
        ensures
            r@ == Map::<u32, u32>::empty(),
    {
        let room: usize = if capacity < ROOM_AT_ONCE {
            capacity
        } else {
            ROOM_AT_ONCE
        };
        map_with_capacity(room)
    }

    /// Binds `old_offset` to `new_offset`.
    pub fn insert(&mut self, old_offset: u32, new_offset: u32)
        ensures
            final(self)@ == old(self)@.insert(old_offset, new_offset),
    {
        map_insert(self, old_offset, new_offset)
    }

    /// The new offset for `old_offset`, if there is one.
    pub fn get(&self, old_offset: &u32) -> (r: Option<&u32>)
        ensures
            match r {
                Some(v) => self@.contains_key(*old_offset) && *v == self@[*old_offset],
                None => !self@.contains_key(*old_offset),
            },
    {
        map_get(self, old_offset)
    }

    /// The number of entries.
    pub fn len(&self) -> (r: usize)
        ensures
            r == self@.len(),
    {
        map_len(self)
    }

    /// Whether there are no entries.
    pub fn is_empty(&self) -> (r: bool)
        ensures
            r == (self@.len() == 0),
    {
        map_len(self) == 0
    }
}

/// Mapping from the handles of a region before a compaction to those after it.
/// Handles of the old generation fail validation at once; `migrate` rewrites them.
#[derive(Debug)]
pub struct HandleRemap {
    pub region_id: u16,
    pub old_generation: u16,
    pub new_generation: u16,
    pub mapping: OffsetMap,
}

impl Clone for HandleRemap {
    fn clone(&self) -> (r: Self)
        ensures
            r.region_id == self.region_id,
            r.old_generation == self.old_generation,
            r.new_generation == self.new_generation,
            r.mapping@ == self.mapping@,
    {
        HandleRemap {
            region_id: self.region_id,
            old_generation: self.old_generation,
            new_generation: self.new_generation,
            mapping: self.mapping.clone(),
        }
    }
}

impl HandleRemap {
    /// Where a handle moved to: the handle must point into this region, carry
    /// the old generation, and point at the start of a moved block.
    pub open spec fn migrated(&self, h: Handle) -> Option<Handle> {
        if h.region_id == self.region_id && h.generation == self.old_generation
            && self.mapping@.contains_key(h.offset) {
            Some(
                Handle {
                    region_id: h.region_id,
                    generation: self.new_generation,
                    offset: self.mapping@[h.offset],
                },
            )
        } else {
            None
        }
    }

    pub fn migrate(&self, h: Handle) -> (r: Option<Handle>)
        ensures
            r == self.migrated(h),
    {
        if h.region_id != self.region_id || h.generation != self.old_generation {
            return None;
        }
        match self.mapping.get(&h.offset) {
            Some(new_offset) => Some(
                Handle {
                    region_id: h.region_id,
                    generation: self.new_generation,
                    offset: *new_offset,
                },
            ),
            None => None,
        }
    }
}

} // verus!
