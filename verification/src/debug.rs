//! Looking into a directory: handle checks and a printed layout.
use vstd::prelude::*;
use crate::concurrent::lemma_listed;
use crate::directory::RegionDirectory;
use crate::handle::Handle;
use crate::memory_region::MemoryRegion;
use crate::region::{Region, RegionKind, Residency};
use crate::text::{decimal, push_decimal};

verus! {

/// What is to be said of a handle.
#[derive(Clone, Copy, Debug, PartialEq, Eq, Structural)]
pub enum HandleStatus {
    Valid,
    StaleGeneration,
    UnknownRegion,
    OutOfBounds,
    NotResident,
}

/// What is to be said of a handle into this directory.
pub open spec fn status_of<M: MemoryRegion>(dir: RegionDirectory<M>, h: Handle) -> HandleStatus {
    match dir.at(h.region_id) {
        None => HandleStatus::UnknownRegion,
        Some(e) => if e.meta.generation != h.generation {
            HandleStatus::StaleGeneration
        } else if h.offset >= e.meta.capacity {
            HandleStatus::OutOfBounds
        } else if e.meta.residency == Residency::Cold || e.meta.residency == Residency::External {
            HandleStatus::NotResident
        } else {
            HandleStatus::Valid
        },
    }
}

pub fn validate_handle<M: MemoryRegion>(dir: &RegionDirectory<M>, handle: Handle) -> (r:
    HandleStatus)
    ensures
        r == status_of(*dir, handle),
{
    let info: &Region = match dir.region_info(handle.region_id) {
        Ok(i) => i,
        Err(_) => return HandleStatus::UnknownRegion,
    };
    if info.generation != handle.generation {
        return HandleStatus::StaleGeneration;
    }
    if handle.offset >= info.capacity {
        return HandleStatus::OutOfBounds;
    }
    match info.residency {
        Residency::Hot | Residency::Warm => HandleStatus::Valid,
        Residency::Cold | Residency::External => HandleStatus::NotResident,
    }
}

/// Each handle with what is to be said of it, in the given order.
pub fn validate_handles<M: MemoryRegion>(dir: &RegionDirectory<M>, handles: &[Handle]) -> (r: Vec<
    (Handle, HandleStatus),
>)
    ensures
        r@ == handles@.map_values(|h: Handle| (h, status_of(*dir, h))),
{
    let mut out: Vec<(Handle, HandleStatus)> = Vec::new();
    let mut i: usize = 0;
    while i < handles.len()
        invariant
            i <= handles@.len(),
            out@.len() == i,
            forall|j: int|
                0 <= j < i ==> #[trigger] out@[j] == (handles@[j], status_of(*dir, handles@[j])),
        decreases handles@.len() - i,
    {
        out.push((handles[i], validate_handle(dir, handles[i])));
        i += 1;
    }
    assert(out@ =~= handles@.map_values(|h: Handle| (h, status_of(*dir, h))));
    out
}

/// The fault counter of a region.
pub open spec fn faults_of<M: MemoryRegion>(dir: RegionDirectory<M>, id: u16) -> u64 {
    dir.at(id)->0.metrics.faults
}

/// The fault counter of every region, by ascending id.
pub fn fault_counts<M: MemoryRegion>(dir: &RegionDirectory<M>) -> (r: Vec<(u16, u64)>)
    requires
        dir.wf(),
    ensures
        r@ == RegionDirectory::listed(dir.slots(), dir.slots().len() as int).map_values(
            |m: Region| (m.id, faults_of(*dir, m.id)),
        ),
{
    let regions: Vec<Region> = dir.iter();
    proof {
        lemma_listed(*dir, dir.slots().len() as int);
    }
    let mut out: Vec<(u16, u64)> = Vec::new();
    let mut i: usize = 0;
    while i < regions.len()
        invariant
            i <= regions@.len(),
            out@.len() == i,
            forall|j: int| 0 <= j < regions@.len() ==> dir.has((#[trigger] regions@[j]).id),
            forall|j: int|
                0 <= j < i ==> #[trigger] out@[j] == (
                    regions@[j].id,
                    faults_of(*dir, regions@[j].id),
                ),
        decreases regions@.len() - i,
    {
        let id: u16 = regions[i].id;
        assert(dir.has(regions@[i as int].id));
        if let Ok(m) = dir.metrics(id) {
            out.push((id, m.snapshot().faults));
        }
        i += 1;
    }
    assert(out@ =~= regions@.map_values(|m: Region| (m.id, faults_of(*dir, m.id))));
    out
}

// ---------------------------------------------------------------------------
// Printed layout
// ---------------------------------------------------------------------------

/// `n` spaces.
pub open spec fn spaces(n: int) -> Seq<char> {
    Seq::new(n as nat, |i: int| ' ')
}

/// `s` with spaces in front, to at least `width` characters.
pub open spec fn right_aligned(s: Seq<char>, width: int) -> Seq<char> {
    if s.len() < width {
        spaces(width - s.len()) + s
    } else {
        s
    }
}

/// `s` with spaces behind, to at least `width` characters.
pub open spec fn left_aligned(s: Seq<char>, width: int) -> Seq<char> {
    if s.len() < width {
        s + spaces(width - s.len())
    } else {
        s
    }
}

fn push_spaces(out: &mut String, n: usize)
    ensures
        final(out)@ == old(out)@ + spaces(n as int),
{
    let mut i: usize = 0;
    assert(out@ =~= old(out)@ + spaces(0));
    while i < n
        invariant
            i <= n,
            out@ == old(out)@ + spaces(i as int),
        decreases n - i,
    {
        let ghost before = out@;
        out.append(" ");
        i += 1;
        proof {
            reveal_strlit(" ");
            assert(out@ =~= old(out)@ + spaces(i as int));
        }
    }
}

fn push_right(out: &mut String, s: &str, width: usize)
    ensures
        final(out)@ == old(out)@ + right_aligned(s@, width as int),
{
    let n: usize = s.unicode_len();
    if n < width {
        push_spaces(out, width - n);
    }
    out.append(s);
    assert(out@ =~= old(out)@ + right_aligned(s@, width as int));
}

fn push_left(out: &mut String, s: &str, width: usize)
    ensures
        final(out)@ == old(out)@ + left_aligned(s@, width as int),
{
    let n: usize = s.unicode_len();
    out.append(s);
    if n < width {
        push_spaces(out, width - n);
    }
    assert(out@ =~= old(out)@ + left_aligned(s@, width as int));
}

pub open spec fn kind_text(k: RegionKind) -> Seq<char> {
    match k {
        RegionKind::HotHeap => "HotHeap"@,
        RegionKind::ObjectArena => "ObjectArena"@,
        RegionKind::BlobArena => "BlobArena"@,
        RegionKind::PageStore => "PageStore"@,
        RegionKind::Scratch => "Scratch"@,
        RegionKind::DeviceState => "DeviceState"@,
        RegionKind::CodeCache => "CodeCache"@,
    }
}

fn kind_name(k: RegionKind) -> (r: &'static str)
    ensures
        r@ == kind_text(k),
{
    match k {
        RegionKind::HotHeap => "HotHeap",
        RegionKind::ObjectArena => "ObjectArena",
        RegionKind::BlobArena => "BlobArena",
        RegionKind::PageStore => "PageStore",
        RegionKind::Scratch => "Scratch",
        RegionKind::DeviceState => "DeviceState",
        RegionKind::CodeCache => "CodeCache",
    }
}

pub open spec fn residency_text(t: Residency) -> Seq<char> {
    match t {
        Residency::Hot => "Hot"@,
        Residency::Warm => "Warm"@,
        Residency::Cold => "Cold"@,
        Residency::External => "External"@,
    }
}

fn residency_name(t: Residency) -> (r: &'static str)
    ensures
        r@ == residency_text(t),
{
    match t {
        Residency::Hot => "Hot",
        Residency::Warm => "Warm",
        Residency::Cold => "Cold",
        Residency::External => "External",
    }
}

/// `out` with the line of one region behind it.
pub open spec fn with_region_line(out: Seq<char>, r: Region) -> Seq<char> {
    out + "  "@ + right_aligned(decimal(r.id as nat), 3) + "  "@ + right_aligned(
        decimal(r.generation as nat),
        3,
    ) + "  "@ + kind_text(r.kind) + " "@ + residency_text(r.residency) + " "@ + left_aligned(
        if r.pinned {
            "yes"@
        } else {
            "no"@
        },
        3,
    ) + "  "@ + decimal(r.used as nat) + "/"@ + decimal(r.capacity as nat) + "\n"@
}

/// `out` with the lines of the first `n` regions behind it.
pub open spec fn with_region_lines(out: Seq<char>, regions: Seq<Region>, n: int) -> Seq<char>
    decreases n,
{
    if n <= 0 {
        out
    } else {
        with_region_line(with_region_lines(out, regions, n - 1), regions[n - 1])
    }
}

/// The whole layout: a heading with the number of regions, then one line each.
pub open spec fn layout_text(regions: Seq<Region>) -> Seq<char> {
    with_region_lines(
        "regions: "@ + decimal(regions.len())
            + "  (id  gen  kind          residency  pin  used/cap)\n"@,
        regions,
        regions.len() as int,
    )
}

fn push_line(out: &mut String, r: &Region)
    ensures
        final(out)@ == with_region_line(old(out)@, *r),
{
    let mut id = String::new();
    push_decimal(&mut id, r.id as u64);
    let mut generation = String::new();
    push_decimal(&mut generation, r.generation as u64);
    assert(id@ =~= decimal(r.id as nat));
    assert(generation@ =~= decimal(r.generation as nat));
    out.append("  ");
    push_right(out, id.as_str(), 3);
    out.append("  ");
    push_right(out, generation.as_str(), 3);
    out.append("  ");
    out.append(kind_name(r.kind));
    out.append(" ");
    out.append(residency_name(r.residency));
    out.append(" ");
    push_left(
        out,
        if r.pinned {
            "yes"
        } else {
            "no"
        },
        3,
    );
    out.append("  ");
    push_decimal(out, r.used as u64);
    out.append("/");
    push_decimal(out, r.capacity as u64);
    out.append("\n");
}

/// The layout of a directory as text.
pub fn dump_region_layout<M: MemoryRegion>(dir: &RegionDirectory<M>) -> (r: String)
    ensures
        r@ == layout_text(RegionDirectory::listed(dir.slots(), dir.slots().len() as int)),
{
    let regions: Vec<Region> = dir.iter();
    let mut out = "regions: ".to_owned();
    push_decimal(&mut out, regions.len() as u64);
    out.append("  (id  gen  kind          residency  pin  used/cap)\n");
    let ghost head = out@;
    let mut i: usize = 0;
    while i < regions.len()
        invariant
            i <= regions@.len(),
            out@ == with_region_lines(head, regions@, i as int),
        decreases regions@.len() - i,
    {
        push_line(&mut out, &regions[i]);
        i += 1;
    }
    out
}

} // verus!
