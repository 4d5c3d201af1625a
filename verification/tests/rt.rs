use std::cmp::Ordering;
use tvm::handle::Handle;
use tvm::rt::{
    amount_reply, byte_reply, check, count_reply, equal_reply, for_chunks, loaded_byte, max_reply,
    min_max_reply, next_chunk, order_reply, place_reply, Error, Pool, Region, RegionPtr,
};

#[test]
fn pool_const_helpers() {
    let p0: Pool = Pool::default();
    let p5: Pool = Pool::new(5);
    assert_eq!(p0.id(), 0);
    assert_eq!(p5.id(), 5);
    assert_ne!(p0, p5);
}

#[test]
fn every_code_has_its_error() {
    assert_eq!(Error::from_code(1), Error::RegionNotFound);
    assert_eq!(Error::from_code(2), Error::StaleHandle);
    assert_eq!(Error::from_code(3), Error::OutOfBounds);
    assert_eq!(Error::from_code(4), Error::NotResident);
    assert_eq!(Error::from_code(5), Error::AllocationFailed);
    assert_eq!(Error::from_code(6), Error::Pinned);
    assert_eq!(Error::from_code(7), Error::GuestMemory);
    assert_eq!(Error::from_code(-3), Error::Other(-3));
    assert_eq!(check(0), Ok(()));
    assert_eq!(check(3), Err(Error::OutOfBounds));
}

#[test]
fn allocation_replies() {
    let region = Region::from_id(9);
    assert_eq!(region.id, 9);
    assert_eq!(region.allocated(0, 5), Err(Error::AllocationFailed));
    assert_eq!(region.allocated(77, 5), Ok(RegionPtr { packed: 77 }));
}

#[test]
fn scalar_replies() {
    assert_eq!(amount_reply(-1, 2), Err(Error::StaleHandle));
    assert_eq!(amount_reply(1 << 40, 2), Ok(1 << 40));
    assert_eq!(count_reply(-1, 4), Err(Error::NotResident));
    assert_eq!(count_reply(12, 4), Ok(12));
    assert_eq!(max_reply(-2, 1), Ok(None));
    assert_eq!(max_reply(-1, 1), Err(Error::RegionNotFound));
    assert_eq!(max_reply(0xffff_ffff, 1), Ok(Some(u32::MAX)));
    assert_eq!(min_max_reply(0x12ff, 0), Ok((0x12, 0xff)));
    assert_eq!(min_max_reply(0xff00, 0), Ok((255, 0)));
    assert_eq!(min_max_reply(-1, 3), Err(Error::OutOfBounds));
    assert_eq!(place_reply(-1, 3), Ok(None));
    assert_eq!(place_reply(-2, 3), Err(Error::OutOfBounds));
    assert_eq!(place_reply(40, 3), Ok(Some(40)));
    assert_eq!(equal_reply(0, 3), Ok(false));
    assert_eq!(equal_reply(1, 3), Ok(true));
    assert_eq!(equal_reply(-1, 3), Err(Error::OutOfBounds));
    assert_eq!(order_reply(-1, 3), Ok(Ordering::Less));
    assert_eq!(order_reply(0, 3), Ok(Ordering::Equal));
    assert_eq!(order_reply(1, 3), Ok(Ordering::Greater));
    assert_eq!(order_reply(-2, 3), Err(Error::OutOfBounds));
    assert_eq!(byte_reply(0x1ab, 3), Ok(0xab));
    assert_eq!(byte_reply(-1, 6), Err(Error::Pinned));
    assert_eq!(loaded_byte(0x1234), 0x34);
}

#[test]
fn chunks_cover_the_range() {
    let start = Handle { region_id: 40_000, generation: 3, offset: 100 };
    let ptr = RegionPtr { packed: i64::from(start) };
    let mut seen = Vec::new();
    let mut consumed = 0u32;
    while let Some((at, len)) = next_chunk(ptr, 150, 64, consumed) {
        seen.push((Handle::from(at.packed), len));
        consumed += len;
    }
    assert_eq!(
        seen,
        vec![
            (Handle { offset: 100, ..start }, 64),
            (Handle { offset: 164, ..start }, 64),
            (Handle { offset: 228, ..start }, 22),
        ]
    );
    assert_eq!(next_chunk(ptr, 0, 64, 0), None);
}

#[test]
fn chunks_are_folded_in_order() {
    let start = Handle { region_id: 2, generation: 5, offset: 10 };
    let ptr = RegionPtr { packed: i64::from(start) };
    let read = |at: RegionPtr, len: u32| -> Result<Vec<u8>, Error> {
        let h = Handle::from(at.packed);
        assert_eq!((h.region_id, h.generation), (2, 5));
        Ok((h.offset..h.offset + len).map(|b| b as u8).collect())
    };
    let mut seen = 0;
    let step = |mut acc: Vec<Vec<u8>>, bytes: &[u8]| {
        seen += bytes.len();
        acc.push(bytes.to_vec());
        acc
    };
    let chunks = for_chunks::<4, _, _, Vec<Vec<u8>>>(&read, ptr, 10, Vec::new(), step).unwrap();
    assert_eq!(seen, 10);
    assert_eq!(chunks, vec![vec![10, 11, 12, 13], vec![14, 15, 16, 17], vec![18, 19]]);
    let refuse = |at: RegionPtr, len: u32| -> Result<Vec<u8>, Error> {
        if Handle::from(at.packed).offset > 10 {
            Err(Error::NotResident)
        } else {
            Ok(vec![0; len as usize])
        }
    };
    assert_eq!(
        for_chunks::<4, _, _, usize>(&refuse, ptr, 10, 0, |n, bytes| n + bytes.len()),
        Err(Error::NotResident)
    );
}
