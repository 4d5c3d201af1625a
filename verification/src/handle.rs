//! Handles: a region id, the generation the handle was issued under, and an offset.
use vstd::prelude::*;
use crate::text::{decimal, hex, push_decimal, push_hex};

verus! {

/// A position inside a region, valid for one generation of that region.
#[derive(Clone, Copy, Debug, PartialEq, Eq, Structural, Hash)]
pub struct Handle {
    pub region_id: u16,
    pub generation: u16,
    pub offset: u32,
}

/// The handle that points nowhere.
pub open spec fn null_handle() -> Handle {
    Handle { region_id: 0, generation: 0, offset: 0 }
}

/// The sixty-four bit form of a handle: region id in the top sixteen bits,
/// generation in the next sixteen, offset in the low thirty-two.
pub open spec fn packed(h: Handle) -> int {
    h.region_id * 0x1_0000_0000_0000 + h.generation * 0x1_0000_0000 + h.offset
}

/// The text of a handle as it is shown to users.
pub open spec fn display_text(h: Handle) -> Seq<char> {
    if h == null_handle() {
        "<null>"@
    } else {
        "r"@ + decimal(h.region_id as nat) + "@"@ + decimal(h.generation as nat) + "+"@ + decimal(
            h.offset as nat,
        )
    }
}

/// The text of a handle as it is shown in diagnostics.
pub open spec fn debug_text(h: Handle) -> Seq<char> {
    if h == null_handle() {
        "Handle::NULL"@
    } else {
        "Handle(r"@ + decimal(h.region_id as nat) + "@gen"@ + decimal(h.generation as nat) + "+"@
            + hex(h.offset as nat) + ")"@
    }
}

impl Handle {
    /// The handle that points nowhere.
    pub fn null() -> (r: Handle)
        ensures
            r == null_handle(),
    {
        Handle { region_id: 0, generation: 0, offset: 0 }
    }

    pub fn is_null(self) -> (r: bool)
        ensures
            r == (self == null_handle()),
    {
        self.region_id == 0 && self.generation == 0 && self.offset == 0
    }

    pub fn pack(self) -> (r: u64)
        ensures
            r == packed(self),
    {
        let id: u64 = self.region_id as u64;
        let gen: u64 = self.generation as u64;
        let off: u64 = self.offset as u64;
        assert((id << 48u64) | (gen << 32u64) | off == id * 0x1_0000_0000_0000 + gen * 0x1_0000_0000
            + off) by (bit_vector)
            requires
                id <= 0xffff,
                gen <= 0xffff,
                off <= 0xffff_ffff,
        ;
        (id << 48) | (gen << 32) | off
    }

    pub fn unpack(packed: u64) -> (r: Self)
        ensures
            crate::handle::packed(r) == packed,
    {
        assert(packed == (packed >> 48u64) * 0x1_0000_0000_0000 + ((packed >> 32u64) & 0xFFFFu64)
            * 0x1_0000_0000 + (packed & 0xFFFF_FFFFu64) && (packed >> 48u64) <= 0xffff && ((packed
            >> 32u64) & 0xFFFFu64) <= 0xffff && (packed & 0xFFFF_FFFFu64) <= 0xffff_ffff)
            by (bit_vector);
        Handle {
            region_id: (packed >> 48) as u16,
            generation: ((packed >> 32) & 0xFFFF) as u16,
            offset: (packed & 0xFFFF_FFFF) as u32,
        }
    }

    /// `r3@1+16`, or `<null>` for the null handle.
    pub fn display(&self) -> (r: String)
        ensures
            r@ == display_text(*self),
    {
        if self.is_null() {
            return "<null>".to_owned();
        }
        let mut out = "r".to_owned();
        push_decimal(&mut out, self.region_id as u64);
        out.append("@");
        push_decimal(&mut out, self.generation as u64);
        out.append("+");
        push_decimal(&mut out, self.offset as u64);
        out
    }

    /// `Handle(r3@gen1+0x10)`, or `Handle::NULL` for the null handle.
    pub fn debug(&self) -> (r: String)
        ensures
            r@ == debug_text(*self),
    {
        if self.is_null() {
            return "Handle::NULL".to_owned();
        }
        let mut out = "Handle(r".to_owned();
        push_decimal(&mut out, self.region_id as u64);
        out.append("@gen");
        push_decimal(&mut out, self.generation as u64);
        out.append("+");
        push_hex(&mut out, self.offset as u64);
        out.append(")");
        out
    }
}

/// The handle whose packed form is `p`.
pub open spec fn unpacked(p: u64) -> Handle {
    Handle {
        region_id: (p as int / 0x1_0000_0000_0000) as u16,
        generation: (p as int / 0x1_0000_0000 % 0x1_0000) as u16,
        offset: (p as int % 0x1_0000_0000) as u32,
    }
}

/// Unpacking is the inverse of packing, in both directions.
pub proof fn law_pack_bijective(h: Handle, p: u64)
    ensures
        0 <= packed(h) <= u64::MAX,
        unpacked(packed(h) as u64) == h,
        packed(unpacked(p)) == p,
{
    let q = packed(h);
    assert(q / 0x1_0000_0000_0000 == h.region_id && q / 0x1_0000_0000 % 0x1_0000 == h.generation
        && q % 0x1_0000_0000 == h.offset) by (nonlinear_arith)
        requires
            q == h.region_id * 0x1_0000_0000_0000 + h.generation * 0x1_0000_0000 + h.offset,
            0 <= h.region_id <= 0xffff,
            0 <= h.generation <= 0xffff,
            0 <= h.offset <= 0xffff_ffff,
    ;
    let x = p as int;
    assert(x / 0x1_0000_0000 / 0x1_0000 == x / 0x1_0000_0000_0000);
}

/// Two handles with the same packed form are the same handle.
pub proof fn law_packed_injective(a: Handle, b: Handle)
    requires
        packed(a) == packed(b),
    ensures
        a == b,
{
    law_pack_bijective(a, 0);
    law_pack_bijective(b, 0);
}

/// Only the null handle packs to zero.
pub proof fn law_null_packs_to_zero(h: Handle)
    ensures
        packed(h) == 0 <==> h == null_handle(),
{
}

/// The signed reading of a packed handle: the same sixty-four bits.
pub open spec fn as_signed(p: u64) -> i64 {
    p as i64
}

impl From<u64> for Handle {
    fn from(packed: u64) -> Self {
        let h = Self::unpack(packed);
        proof {
            law_pack_bijective(h, packed);
        }
        h
    }
}

impl vstd::std_specs::convert::FromSpecImpl<u64> for Handle {
    open spec fn obeys_from_spec() -> bool {
        true
    }

    open spec fn from_spec(packed: u64) -> Self {
        unpacked(packed)
    }
}

impl From<i64> for Handle {
    fn from(packed: i64) -> Self {
        let h = Self::unpack(packed as u64);
        proof {
            law_pack_bijective(h, packed as u64);
        }
        h
    }
}

impl vstd::std_specs::convert::FromSpecImpl<i64> for Handle {
    open spec fn obeys_from_spec() -> bool {
        true
    }

    open spec fn from_spec(packed: i64) -> Self {
        unpacked(packed as u64)
    }
}

impl From<Handle> for u64 {
    fn from(h: Handle) -> Self {
        h.pack()
    }
}

impl vstd::std_specs::convert::FromSpecImpl<Handle> for u64 {
    open spec fn obeys_from_spec() -> bool {
        true
    }

    open spec fn from_spec(h: Handle) -> Self {
        packed(h) as u64
    }
}

impl From<Handle> for i64 {
    fn from(h: Handle) -> Self {
        h.pack() as i64
    }
}

impl vstd::std_specs::convert::FromSpecImpl<Handle> for i64 {
    open spec fn obeys_from_spec() -> bool {
        true
    }

    open spec fn from_spec(h: Handle) -> Self {
        as_signed(packed(h) as u64)
    }
}

} // verus!
