use linear_memory::{
    Allocator, Buffer, Destination, Error, MemoryInstance, Pages, LINEAR_MEMORY_PAGE_SIZE,
};
use memory_units::ByteSize;

fn create_memory(initial_content: &[u8]) -> MemoryInstance {
    let mut mem =
        MemoryInstance::new(Pages(1), Some(Pages(1)), Buffer::Growable(Vec::new()));
    mem.set(0, initial_content)
        .expect("Successful initialize the memory");
    mem
}

#[test]
fn allocate() {
    let fixtures = &[
        (0, None, true),
        (0, Some(0), true),
        (1, None, true),
        (1, Some(1), true),
        (0, Some(1), true),
        (1, Some(0), false),
        (0, Some(65536), true),
        (65536, Some(65536), true),
        (65536, Some(0), false),
        (65536, None, true),
    ];
    for (index, &(initial, maybe_max, expected_ok)) in fixtures.iter().enumerate() {
        let initial: Pages = Pages(initial);
        let maximum: Option<Pages> = maybe_max.map(|m| Pages(m));
        let result = MemoryInstance::allocate(initial, maximum);
        if result.is_ok() != expected_ok {
            panic!(
                "unexpected error at {}, initial={:?}, max={:?}, expected={}, result={:?}",
                index,
                initial,
                maybe_max,
                expected_ok,
                result.err(),
            );
        }
    }
}

#[test]
fn ensure_page_size() {
    assert_eq!(
        LINEAR_MEMORY_PAGE_SIZE,
        memory_units::wasm32::Pages::byte_size().0
    );
}

#[test]
fn copy_overlaps_1() {
    let mut mem = create_memory(&[0, 1, 2, 3, 4, 5, 6, 7, 8, 9]);
    mem.copy(0, 4, 6).expect("Successfully copy the elements");
    let result = mem.get(0, 10).expect("Successfully retrieve the result");
    assert_eq!(result, &[0, 1, 2, 3, 0, 1, 2, 3, 4, 5]);
}

#[test]
fn copy_overlaps_2() {
    let mut mem = create_memory(&[0, 1, 2, 3, 4, 5, 6, 7, 8, 9]);
    mem.copy(4, 0, 6).expect("Successfully copy the elements");
    let result = mem.get(0, 10).expect("Successfully retrieve the result");
    assert_eq!(result, &[4, 5, 6, 7, 8, 9, 6, 7, 8, 9]);
}

#[test]
fn copy_nonoverlapping() {
    let mut mem = create_memory(&[0, 1, 2, 3, 4, 5, 6, 7, 8, 9]);
    mem.copy_nonoverlapping(0, 10, 10)
        .expect("Successfully copy the elements");
    let result = mem.get(10, 10).expect("Successfully retrieve the result");
    assert_eq!(result, &[0, 1, 2, 3, 4, 5, 6, 7, 8, 9]);
}

#[test]
fn copy_nonoverlapping_overlaps_1() {
    let mut mem = create_memory(&[0, 1, 2, 3, 4, 5, 6, 7, 8, 9]);
    let result = mem.copy_nonoverlapping(0, 4, 6);
    match result {
        Err(Error::Memory(_)) => {}
        _ => panic!("Expected Error::Memory(_) result, but got {:?}", result),
    }
}

#[test]
fn copy_nonoverlapping_overlaps_2() {
    let mut mem = create_memory(&[0, 1, 2, 3, 4, 5, 6, 7, 8, 9]);
    let result = mem.copy_nonoverlapping(4, 0, 6);
    match result {
        Err(Error::Memory(_)) => {}
        _ => panic!("Expected Error::Memory(_), but got {:?}", result),
    }
}

#[test]
fn transfer_works() {
    let mut src = create_memory(&[0, 1, 2, 3, 4, 5, 6, 7, 8, 9]);
    let mut dst = create_memory(&[10, 11, 12, 13, 14, 15, 16, 17, 18, 19]);

    MemoryInstance::transfer(&mut src, 4, Destination::OtherMemory(&mut dst), 0, 3).unwrap();

    assert_eq!(src.get(0, 10).unwrap(), &[0, 1, 2, 3, 4, 5, 6, 7, 8, 9]);
    assert_eq!(
        dst.get(0, 10).unwrap(),
        &[4, 5, 6, 13, 14, 15, 16, 17, 18, 19]
    );
}

#[test]
fn transfer_still_works_with_same_memory() {
    let mut src = create_memory(&[0, 1, 2, 3, 4, 5, 6, 7, 8, 9]);

    MemoryInstance::transfer(&mut src, 4, Destination::SameMemory, 0, 3).unwrap();

    assert_eq!(src.get(0, 10).unwrap(), &[4, 5, 6, 3, 4, 5, 6, 7, 8, 9]);
}

#[test]
fn transfer_oob_with_same_memory_errors() {
    let mut src = create_memory(&[0, 1, 2, 3, 4, 5, 6, 7, 8, 9]);
    assert!(MemoryInstance::transfer(&mut src, 65535, Destination::SameMemory, 0, 3).is_err());

    // Check that memories content left untouched
    assert_eq!(src.get(0, 10).unwrap(), &[0, 1, 2, 3, 4, 5, 6, 7, 8, 9]);
}

#[test]
fn transfer_oob_errors() {
    let mut src = create_memory(&[0, 1, 2, 3, 4, 5, 6, 7, 8, 9]);
    let mut dst = create_memory(&[10, 11, 12, 13, 14, 15, 16, 17, 18, 19]);

    assert!(
        MemoryInstance::transfer(&mut src, 65535, Destination::OtherMemory(&mut dst), 0, 3)
            .is_err()
    );

    // Check that memories content left untouched
    assert_eq!(src.get(0, 10).unwrap(), &[0, 1, 2, 3, 4, 5, 6, 7, 8, 9]);
    assert_eq!(
        dst.get(0, 10).unwrap(),
        &[10, 11, 12, 13, 14, 15, 16, 17, 18, 19]
    );
}

#[test]
fn clear() {
    let mut mem = create_memory(&[0, 1, 2, 3, 4, 5, 6, 7, 8, 9]);
    mem.clear(0, 0x4A, 10)
        .expect("To successfully clear the memory");
    let result = mem.get(0, 10).expect("To successfully retrieve the result");
    assert_eq!(result, &[0x4A; 10]);
}

#[test]
fn get_into() {
    let mut mem = MemoryInstance::new(Pages(1), None, Buffer::Growable(Vec::new()));
    mem.set(6, &[13, 17, 129])
        .expect("memory set should not fail");

    let mut data = [0u8; 2];
    mem.get_into(7, &mut data[..])
        .expect("get_into should not fail");

    assert_eq!(data, [17, 129]);
}

#[test]
fn zero_copy() {
    let mut mem = MemoryInstance::allocate(Pages(1), None).unwrap();
    mem.set(100, &[0]).expect("memory set should not fail");
    mem.with_direct_access_mut(|buf| {
        assert_eq!(buf.as_slice().len(), 101);
        buf.as_mut_slice()[..10].copy_from_slice(&[0, 1, 2, 3, 4, 5, 6, 7, 8, 9]);
    });
    mem.with_direct_access(|buf| {
        assert_eq!(buf.len(), 101);
        assert_eq!(&buf[..10], &[0, 1, 2, 3, 4, 5, 6, 7, 8, 9]);
    });
}
