//! The guest's side of the raw calls: what the replies of the host mean, how a
//! range is read in chunks, and pool identifiers.
use vstd::prelude::*;
use core::cmp::Ordering;
use crate::handle::{law_pack_bijective, packed, unpacked, Handle};

verus! {

/// Why a raw call failed.
#[derive(Clone, Copy, Debug, PartialEq, Eq, Structural)]
pub enum Error {
    RegionNotFound,
    StaleHandle,
    OutOfBounds,
    NotResident,
    AllocationFailed,
    Pinned,
    GuestMemory,
    Other(i32),
}

/// The error that a code stands for.
pub open spec fn error_of(code: i32) -> Error {
    if code == 1 {
        Error::RegionNotFound
    } else if code == 2 {
        Error::StaleHandle
    } else if code == 3 {
        Error::OutOfBounds
    } else if code == 4 {
        Error::NotResident
    } else if code == 5 {
        Error::AllocationFailed
    } else if code == 6 {
        Error::Pinned
    } else if code == 7 {
        Error::GuestMemory
    } else {
        Error::Other(code)
    }
}

impl Error {
    pub fn from_code(code: i32) -> (r: Self)
        ensures
            r == error_of(code),
    {
        match code {
            1 => Error::RegionNotFound,
            2 => Error::StaleHandle,
            3 => Error::OutOfBounds,
            4 => Error::NotResident,
            5 => Error::AllocationFailed,
            6 => Error::Pinned,
            7 => Error::GuestMemory,
            other => Error::Other(other),
        }
    }
}

/// Different codes are different errors.
pub proof fn law_codes_are_distinct(a: i32, b: i32)
    ensures
        error_of(a) == error_of(b) ==> a == b,
{
}

/// The meaning of a status code: zero is success.
pub fn check(code: i32) -> (r: Result<(), Error>)
    ensures
        code == 0 ==> r is Ok,
        code != 0 ==> r == Err::<(), Error>(error_of(code)),
{
    if code == 0 {
        Ok(())
    } else {
        Err(Error::from_code(code))
    }
}

/// A region, by its number.
#[derive(Clone, Copy, Debug, PartialEq, Eq, Structural)]
pub struct Region {
    pub id: u16,
}

/// A place in a region, in the packed form that crosses the boundary.
#[derive(Clone, Copy, Debug, PartialEq, Eq, Structural)]
pub struct RegionPtr {
    pub packed: i64,
}

impl Region {
    pub fn from_id(id: u16) -> (r: Self)
        ensures
            r.id == id,
    {
        Region { id }
    }

    /// The reply to an allocation: zero is a failure, told by the last error.
    pub fn allocated(self, reply: i64, last_error: i32) -> (r: Result<RegionPtr, Error>)
        ensures
            reply == 0 ==> r == Err::<RegionPtr, Error>(error_of(last_error)),
            reply != 0 ==> r == Ok::<RegionPtr, Error>(RegionPtr { packed: reply }),
    {
        if reply == 0 {
            Err(Error::from_code(last_error))
        } else {
            Ok(RegionPtr { packed: reply })
        }
    }
}

/// A 64-bit amount, as the sums and the population count reply it: below zero is
/// a failure.
pub fn amount_reply(reply: i64, last_error: i32) -> (r: Result<u64, Error>)
    ensures
        reply < 0 ==> r == Err::<u64, Error>(error_of(last_error)),
        reply >= 0 ==> r == Ok::<u64, Error>(reply as u64),
{
    if reply < 0 {
        Err(Error::from_code(last_error))
    } else {
        Ok(reply as u64)
    }
}

/// A count, as the two counting calls reply it: below zero is a failure.
pub fn count_reply(reply: i32, last_error: i32) -> (r: Result<u32, Error>)
    ensures
        reply < 0 ==> r == Err::<u32, Error>(error_of(last_error)),
        reply >= 0 ==> r == Ok::<u32, Error>(reply as u32),
{
    if reply < 0 {
        Err(Error::from_code(last_error))
    } else {
        Ok(reply as u32)
    }
}

/// A maximum: -2 where there are no values, -1 for a failure.
pub fn max_reply(reply: i64, last_error: i32) -> (r: Result<Option<u32>, Error>)
    ensures
        reply == -2 ==> r == Ok::<Option<u32>, Error>(None),
        reply == -1 ==> r == Err::<Option<u32>, Error>(error_of(last_error)),
        reply != -2 && reply != -1 ==> r == Ok::<Option<u32>, Error>(Some(reply as u32)),
{
    if reply == -2 {
        Ok(None)
    } else if reply == -1 {
        Err(Error::from_code(last_error))
    } else {
        #[verifier::truncate]
        let largest: u32 = reply as u32;
        Ok(Some(largest))
    }
}

/// The smallest and the largest byte, packed into one word: below zero is a
/// failure.
pub fn min_max_reply(reply: i32, last_error: i32) -> (r: Result<(u8, u8), Error>)
    ensures
        reply < 0 ==> r == Err::<(u8, u8), Error>(error_of(last_error)),
        reply >= 0 ==> r == Ok::<(u8, u8), Error>(
            ((reply as int / 0x100 % 0x100) as u8, (reply as int % 0x100) as u8),
        ),
{
    if reply < 0 {
        Err(Error::from_code(last_error))
    } else {
        let word: u32 = reply as u32;
        Ok(((word / 0x100 % 0x100) as u8, (word % 0x100) as u8))
    }
}

/// A place, as the two searches reply it: -1 where nothing was found, -2 for a
/// failure.
pub fn place_reply(reply: i32, last_error: i32) -> (r: Result<Option<u32>, Error>)
    ensures
        reply == -1 ==> r == Ok::<Option<u32>, Error>(None),
        reply == -2 ==> r == Err::<Option<u32>, Error>(error_of(last_error)),
        reply >= 0 ==> r == Ok::<Option<u32>, Error>(Some(reply as u32)),
        reply < -2 ==> r == Ok::<Option<u32>, Error>(Some((reply + 0x1_0000_0000) as u32)),
{
    if reply == -1 {
        Ok(None)
    } else if reply == -2 {
        Err(Error::from_code(last_error))
    } else if reply >= 0 {
        Ok(Some(reply as u32))
    } else {
        Ok(Some((reply as i64 + 0x1_0000_0000) as u32))
    }
}

/// Whether two ranges are equal: anything but 0 and 1 is a failure.
pub fn equal_reply(reply: i32, last_error: i32) -> (r: Result<bool, Error>)
    ensures
        reply == 0 ==> r == Ok::<bool, Error>(false),
        reply == 1 ==> r == Ok::<bool, Error>(true),
        reply != 0 && reply != 1 ==> r == Err::<bool, Error>(error_of(last_error)),
{
    match reply {
        0 => Ok(false),
        1 => Ok(true),
        _ => Err(Error::from_code(last_error)),
    }
}

/// How two ranges compare: anything but -1, 0 and 1 is a failure.
pub fn order_reply(reply: i32, last_error: i32) -> (r: Result<Ordering, Error>)
    ensures
        reply == -1 ==> r == Ok::<Ordering, Error>(Ordering::Less),
        reply == 0 ==> r == Ok::<Ordering, Error>(Ordering::Equal),
        reply == 1 ==> r == Ok::<Ordering, Error>(Ordering::Greater),
        reply < -1 || reply > 1 ==> r == Err::<Ordering, Error>(error_of(last_error)),
{
    if reply == -1 {
        Ok(Ordering::Less)
    } else if reply == 0 {
        Ok(Ordering::Equal)
    } else if reply == 1 {
        Ok(Ordering::Greater)
    } else {
        Err(Error::from_code(last_error))
    }
}

/// A byte, as the three folds reply it: below zero is a failure.
pub fn byte_reply(reply: i32, last_error: i32) -> (r: Result<u8, Error>)
    ensures
        reply < 0 ==> r == Err::<u8, Error>(error_of(last_error)),
        reply >= 0 ==> r == Ok::<u8, Error>((reply as int % 0x100) as u8),
{
    if reply < 0 {
        Err(Error::from_code(last_error))
    } else {
        Ok((reply as u32 % 0x100) as u8)
    }
}

impl RegionPtr {
    /// The handle that the pointer packs.
    pub open spec fn handle(self) -> Handle {
        unpacked(self.packed as u64)
    }

    /// The place `by` bytes further on in the same region.
    pub fn advanced(self, by: u32) -> (r: Self)
        requires
            self.handle().offset + by <= u32::MAX,
        ensures
            r.handle() == (Handle { offset: (self.handle().offset + by) as u32, ..self.handle() }),
    {
        let h = Handle::from(self.packed);
        let moved = Handle { offset: h.offset + by, ..h };
        let word: u64 = moved.pack();
        proof {
            law_pack_bijective(moved, 0);
            assert(word as i64 as u64 == word) by (bit_vector);
        }
        RegionPtr { packed: word as i64 }
    }
}

/// The start and length of the chunk that comes next.
pub open spec fn chunk_at(total: nat, size: nat, consumed: nat) -> (nat, nat) {
    (
        consumed,
        if size <= total - consumed {
            size
        } else {
            (total - consumed) as nat
        },
    )
}

/// The chunks of a range from `consumed` on.
pub open spec fn chunks_from(total: nat, size: nat, consumed: nat) -> Seq<(nat, nat)>
    decreases total - consumed,
{
    if consumed >= total || size == 0 {
        Seq::empty()
    } else {
        let c = chunk_at(total, size, consumed);
        seq![c] + chunks_from(total, size, consumed + c.1)
    }
}

/// The next chunk of a range that is read `size` bytes at a time: where it
/// starts and how long it is.
pub fn next_chunk(ptr: RegionPtr, total_len: u32, size: u32, consumed: u32) -> (r: Option<
    (RegionPtr, u32),
>)
    requires
        size > 0,
        ptr.handle().offset + total_len <= u32::MAX + 1,
    ensures
        consumed >= total_len ==> r is None,
        consumed < total_len ==> {
            let c = chunk_at(total_len as nat, size as nat, consumed as nat);
            &&& r is Some
            &&& (r->0).0.handle() == (Handle {
                offset: (ptr.handle().offset + c.0) as u32,
                ..ptr.handle()
            })
            &&& (r->0).1 == c.1
        },
{
    if consumed >= total_len {
        return None;
    }
    let left: u32 = total_len - consumed;
    let len: u32 = if size < left {
        size
    } else {
        left
    };
    Some((ptr.advanced(consumed), len))
}

/// The chunks of a range lie one behind the other, none is empty or longer than
/// asked for, and together they make up the range.
pub proof fn law_chunks_tile(total: nat, size: nat, consumed: nat)
    requires
        size > 0,
        consumed < total,
    ensures
        ({
            let c = chunks_from(total, size, consumed);
            &&& c.len() > 0
            &&& c[0].0 == consumed
            &&& forall|i: int| 0 <= i < c.len() ==> 0 < (#[trigger] c[i]).1 <= size
            &&& forall|i: int|
                0 <= i < c.len() - 1 ==> (#[trigger] c[i]).0 + c[i].1 == c[i + 1].0
            &&& c.last().0 + c.last().1 == total
        }),
    decreases total - consumed,
{
    let first = chunk_at(total, size, consumed);
    let rest = chunks_from(total, size, consumed + first.1);
    let c = chunks_from(total, size, consumed);
    if consumed + first.1 < total {
        law_chunks_tile(total, size, consumed + first.1);
        assert(forall|i: int| 1 <= i < c.len() ==> #[trigger] c[i] == rest[i - 1]);
        assert(c.last() == rest.last());
    } else {
        assert(c =~= seq![first]);
    }
}

/// What folding a range from `consumed` on comes to: its chunks are read one after
/// the other, each is folded into the result so far, and the first failure ends it.
pub open spec fn folds<R: Fn(RegionPtr, u32) -> Result<Vec<u8>, Error>, F: FnMut(T, &[u8]) -> T, T>(
    read: R,
    step: F,
    start: Handle,
    total: nat,
    size: nat,
    consumed: nat,
    acc: T,
    r: Result<T, Error>,
) -> bool
    decreases total - consumed,
{
    if consumed >= total || size == 0 {
        r == Ok::<T, Error>(acc)
    } else {
        let c = chunk_at(total, size, consumed);
        exists|at: RegionPtr, out: Result<Vec<u8>, Error>| #[trigger]
            call_ensures(read, (at, c.1 as u32), out) && at.handle() == (Handle {
                offset: (start.offset + c.0) as u32,
                ..start
            }) && match out {
                Err(e) => r == Err::<T, Error>(e),
                Ok(bytes) => exists|chunk: &[u8], next: T| #[trigger]
                    call_ensures(step, (acc, chunk), next) && chunk@ == bytes@ && folds(
                        read,
                        step,
                        start,
                        total,
                        size,
                        consumed + c.1,
                        next,
                        r,
                    ),
            }
    }
}

/// Reads a range in chunks of `N` bytes and folds the chunks.
pub fn for_chunks<
    const N: usize,
    R: Fn(RegionPtr, u32) -> Result<Vec<u8>, Error>,
    F: FnMut(T, &[u8]) -> T,
    T,
>(read: &R, ptr: RegionPtr, total_len: u32, init: T, step: F) -> (r: Result<T, Error>)
    requires
        0 < N <= u32::MAX,
        ptr.handle().offset + total_len <= u32::MAX + 1,
        forall|p: RegionPtr, n: u32| #[trigger] call_requires(*read, (p, n)),
        forall|t: T, b: &[u8]| #[trigger] call_requires(step, (t, b)),
    ensures
        folds(*read, step, ptr.handle(), total_len as nat, N as nat, 0, init, r),
{
    let size: u32 = N as u32;
    let ghost start = ptr.handle();
    let ghost total = total_len as nat;
    let ghost first = init;
    let mut folder = step;
    let mut acc: T = init;
    let mut consumed: u32 = 0;
    while consumed < total_len
        invariant
            size == N,
            size > 0,
            first == init,
            folder == step,
            consumed <= total_len,
            start == ptr.handle(),
            total == total_len as nat,
            start.offset + total_len <= u32::MAX + 1,
            forall|p: RegionPtr, n: u32| #[trigger] call_requires(*read, (p, n)),
            forall|t: T, b: &[u8]| #[trigger] call_requires(step, (t, b)),
            forall|r: Result<T, Error>| #[trigger]
                folds(*read, step, start, total, N as nat, consumed as nat, acc, r) ==> folds(
                    *read,
                    step,
                    start,
                    total,
                    N as nat,
                    0,
                    first,
                    r,
                ),
        decreases total_len - consumed,
    {
        let (at, len): (RegionPtr, u32) = match next_chunk(ptr, total_len, size, consumed) {
            Some(chunk) => chunk,
            None => (ptr, 0),
        };
        let ghost c = chunk_at(total, N as nat, consumed as nat);
        assert(len == c.1 as u32);
        let ghost before = acc;
        let out = read(at, len);
        match out {
            Err(e) => {
                let ghost failed = Err::<T, Error>(e);
                assert(call_ensures(*read, (at, c.1 as u32), Err::<Vec<u8>, Error>(e)));
                assert(folds(
                    *read,
                    step,
                    start,
                    total,
                    N as nat,
                    consumed as nat,
                    before,
                    failed,
                ));
                return Err(e);
            },
            Ok(bytes) => {
                let ghost whole = bytes;
                assert(call_ensures(*read, (at, c.1 as u32), Ok::<Vec<u8>, Error>(whole)));
                let chunk = bytes.as_slice();
                acc = folder(acc, chunk);
                let ghost earlier = consumed as nat;
                let ghost now = acc;
                assert(call_ensures(step, (before, chunk), now));
                consumed += len;
                assert(consumed as nat == earlier + c.1);
                assert forall|r: Result<T, Error>| #[trigger]
                    folds(*read, step, start, total, N as nat, consumed as nat, now, r) implies folds(
                    *read,
                    step,
                    start,
                    total,
                    N as nat,
                    0,
                    first,
                    r,
                ) by {
                    assert(folds(*read, step, start, total, N as nat, earlier, before, r));
                }
            },
        }
    }
    assert(folds(
        *read,
        step,
        start,
        total,
        N as nat,
        consumed as nat,
        acc,
        Ok::<T, Error>(acc),
    ));
    Ok(acc)
}

/// A memory pool, by the index of its memory. Pool 0 is the default memory.
#[derive(Clone, Copy, Debug, PartialEq, Eq, Structural, Hash, PartialOrd, Ord)]
pub struct Pool(pub u32);

impl Default for Pool {
    /// The default memory.
    fn default() -> (r: Self)
        ensures
            r == Pool(0),
    {
        Pool(0)
    }
}

impl Pool {
    pub fn new(id: u32) -> (r: Self)
        ensures
            r == Pool(id),
    {
        Pool(id)
    }

    pub fn id(self) -> (r: u32)
        ensures
            r == self.0,
    {
        self.0
    }
}

/// The byte of a loaded word.
pub fn loaded_byte(word: u32) -> (r: u8)
    ensures
        r == word % 0x100,
{
    (word % 0x100) as u8
}

} // verus!
