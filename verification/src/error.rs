//! Errors, and the record an error site leaves behind for diagnosis.
use vstd::prelude::*;
use crate::text::{decimal, hex, push_decimal, push_hex};

verus! {

/// Everything that can go wrong in a region operation.
#[derive(Debug)]
pub enum TvmError {
    RegionNotFound(u16),
    StaleHandle,
    OutOfBounds,
    NotResident,
    AllocationFailed,
    BackingStore(String),
    Pinned,
    UnsupportedAllocator,
    PolicyViolation,
}

/// The message shown for an error.
pub open spec fn message_text(e: TvmError) -> Seq<char> {
    match e {
        TvmError::RegionNotFound(id) => "region not found: id="@ + decimal(id as nat),
        TvmError::StaleHandle => "stale handle: generation mismatch"@,
        TvmError::OutOfBounds => "out of bounds: access exceeds region capacity"@,
        TvmError::NotResident =>
            "region is not resident (Cold tier; load via load_region or auto-fault)"@,
        TvmError::AllocationFailed => "allocation failed: region full or unsupported size"@,
        TvmError::BackingStore(s) => "backing store error: "@ + s@,
        TvmError::Pinned => "region is pinned: cannot spill or demote"@,
        TvmError::UnsupportedAllocator =>
            "operation not supported by this allocator (e.g. compaction on Bump)"@,
        TvmError::PolicyViolation =>
            "policy violation: operation forbidden by region's PlacementPolicy"@,
    }
}

impl TvmError {
    /// The message shown for this error.
    pub fn message(&self) -> (r: String)
        ensures
            r@ == message_text(*self),
    {
        match self {
            TvmError::RegionNotFound(id) => {
                let mut out = "region not found: id=".to_owned();
                push_decimal(&mut out, *id as u64);
                out
            },
            TvmError::StaleHandle => "stale handle: generation mismatch".to_owned(),
            TvmError::OutOfBounds => "out of bounds: access exceeds region capacity".to_owned(),
            TvmError::NotResident => {
                "region is not resident (Cold tier; load via load_region or auto-fault)".to_owned()
            },
            TvmError::AllocationFailed => {
                "allocation failed: region full or unsupported size".to_owned()
            },
            TvmError::BackingStore(s) => {
                let mut out = "backing store error: ".to_owned();
                out.append(s.as_str());
                out
            },
            TvmError::Pinned => "region is pinned: cannot spill or demote".to_owned(),
            TvmError::UnsupportedAllocator => {
                "operation not supported by this allocator (e.g. compaction on Bump)".to_owned()
            },
            TvmError::PolicyViolation => {
                "policy violation: operation forbidden by region's PlacementPolicy".to_owned()
            },
        }
    }
}

/// What an error site recorded about the failing request: which region, what
/// offset, how big a request. Fields that do not apply are `None`.
#[derive(Clone, Copy, Debug)]
pub struct ErrorContext {
    pub region_id: Option<u16>,
    pub generation: Option<u16>,
    pub offset: Option<u32>,
    pub len: Option<u32>,
    pub capacity: Option<u32>,
    pub note: Option<&'static str>,
}

/// A context in which nothing is filled in.
pub open spec fn empty_context() -> ErrorContext {
    ErrorContext {
        region_id: None,
        generation: None,
        offset: None,
        len: None,
        capacity: None,
        note: None,
    }
}

impl Default for ErrorContext {
    fn default() -> (r: Self)
        ensures
            r == empty_context(),
    {
        ErrorContext {
            region_id: None,
            generation: None,
            offset: None,
            len: None,
            capacity: None,
            note: None,
        }
    }
}

/// The filled-in fields of a context, each with its label, in display order.
pub open spec fn context_parts(c: ErrorContext) -> Seq<Seq<char>> {
    let none = Seq::<Seq<char>>::empty();
    (match c.region_id {
        Some(r) => seq!["region="@ + decimal(r as nat)],
        None => none,
    }) + (match c.generation {
        Some(g) => seq!["gen="@ + decimal(g as nat)],
        None => none,
    }) + (match c.offset {
        Some(o) => seq!["offset="@ + hex(o as nat)],
        None => none,
    }) + (match c.len {
        Some(l) => seq!["len="@ + decimal(l as nat)],
        None => none,
    }) + (match c.capacity {
        Some(k) => seq!["capacity="@ + decimal(k as nat)],
        None => none,
    }) + (match c.note {
        Some(n) => seq!["note=\""@ + n@ + "\""@],
        None => none,
    })
}

/// The parts one after the other, with a comma and a space between neighbours.
pub open spec fn joined(parts: Seq<Seq<char>>) -> Seq<char>
    decreases parts.len(),
{
    if parts.len() == 0 {
        Seq::empty()
    } else if parts.len() == 1 {
        parts[0]
    } else {
        joined(parts.drop_last()) + ", "@ + parts.last()
    }
}

/// Appends one labelled part behind those already written.
fn push_part(out: &mut String, first: bool, part: &str, Ghost(parts): Ghost<Seq<Seq<char>>>)
    requires
        first == (parts.len() == 0),
        old(out)@ == "["@ + joined(parts),
    ensures
        final(out)@ == "["@ + joined(parts.push(part@)),
{
    if !first {
        out.append(", ");
    }
    out.append(part);
    proof {
        let all = parts.push(part@);
        assert(all.drop_last() =~= parts);
        if parts.len() == 0 {
            assert("["@ + Seq::<char>::empty() =~= "["@);
            assert(joined(all) == part@);
        }
        assert(out@ =~= "["@ + joined(all));
    }
}

impl ErrorContext {
    /// `[region=3, offset=0x10, note="..."]` with only the filled-in fields.
    pub fn display(&self) -> (r: String)
        ensures
            r@ == "["@ + joined(context_parts(*self)) + "]"@,
    {
        let mut out = "[".to_owned();
        let mut first = true;
        let ghost mut parts = Seq::<Seq<char>>::empty();
        proof {
            assert("["@ + joined(parts) =~= "["@);
        }
        if let Some(r) = self.region_id {
            let mut part = "region=".to_owned();
            push_decimal(&mut part, r as u64);
            push_part(&mut out, first, part.as_str(), Ghost(parts));
            proof {
                parts = parts.push(part@);
            }
            first = false;
        }
        if let Some(g) = self.generation {
            let mut part = "gen=".to_owned();
            push_decimal(&mut part, g as u64);
            push_part(&mut out, first, part.as_str(), Ghost(parts));
            proof {
                parts = parts.push(part@);
            }
            first = false;
        }
        if let Some(o) = self.offset {
            let mut part = "offset=".to_owned();
            push_hex(&mut part, o as u64);
            push_part(&mut out, first, part.as_str(), Ghost(parts));
            proof {
                parts = parts.push(part@);
            }
            first = false;
        }
        if let Some(l) = self.len {
            let mut part = "len=".to_owned();
            push_decimal(&mut part, l as u64);
            push_part(&mut out, first, part.as_str(), Ghost(parts));
            proof {
                parts = parts.push(part@);
            }
            first = false;
        }
        if let Some(c) = self.capacity {
            let mut part = "capacity=".to_owned();
            push_decimal(&mut part, c as u64);
            push_part(&mut out, first, part.as_str(), Ghost(parts));
            proof {
                parts = parts.push(part@);
            }
            first = false;
        }
        if let Some(n) = self.note {
            let mut part = "note=\"".to_owned();
            part.append(n);
            part.append("\"");
            push_part(&mut out, first, part.as_str(), Ghost(parts));
            proof {
                parts = parts.push(part@);
            }
        }
        assert(parts =~= context_parts(*self));
        out.append("]");
        out
    }
}

/// Records `ctx` as the most recent error context, replacing any earlier one.
pub fn set_last_error_context(slot: &mut Option<ErrorContext>, ctx: ErrorContext)
    ensures
        *final(slot) == Some(ctx),
{
    *slot = Some(ctx);
}

/// Takes the most recent error context and clears it.
pub fn take_last_error_context(slot: &mut Option<ErrorContext>) -> (r: Option<ErrorContext>)
    ensures
        r == *old(slot),
        *final(slot) == None::<ErrorContext>,
{
    slot.take()
}

} // verus!
