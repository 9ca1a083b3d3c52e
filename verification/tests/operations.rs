use linear_memory::text::append_decimal;
use linear_memory::validation::validate_memory;
use linear_memory::{
    Allocator, Buffer, Bytes, CheckedRegion, Destination, Error, LittleEndianConvert,
    MemoryInstance, Pages, ValueError, LINEAR_MEMORY_MAX_PAGES,
};
use memory_units::{wasm32, RoundUpTo};

fn message<T>(result: Result<T, Error>) -> String {
    match result {
        Ok(_) => panic!("expected an error"),
        Err(Error::Memory(text)) => text,
    }
}

fn one_page() -> MemoryInstance {
    MemoryInstance::allocate(Pages(1), None).unwrap()
}

fn leaked(size: usize) -> &'static mut [u8] {
    Box::leak(vec![0u8; size].into_boxed_slice())
}

#[test]
fn pages_and_bytes_convert() {
    assert_eq!(Pages(0).into_bytes(), Bytes(0));
    assert_eq!(Pages(3).into_bytes(), Bytes(196608));
    assert_eq!(Bytes(0).round_up_to(), Pages(0));
    assert_eq!(Bytes(1).round_up_to(), Pages(1));
    assert_eq!(Bytes(65536).round_up_to(), Pages(1));
    assert_eq!(Bytes(65537).round_up_to(), Pages(2));
    assert_eq!(Bytes(usize::MAX).round_up_to(), Pages(1 << (usize::BITS - 16)));
}

#[test]
fn rounding_agrees_with_memory_units() {
    for bytes in [0, 1, 2, 65535, 65536, 65537, 131072, 1 << 31, (1 << 31) + 1] {
        let expected: wasm32::Pages = memory_units::Bytes(bytes).round_up_to();
        assert_eq!(Bytes(bytes).round_up_to(), Pages(expected.0));
    }
}

#[test]
fn size_of_fresh_memory_in_bytes() {
    let memory = one_page();
    assert_eq!(memory.current_size().into_bytes(), Bytes(65536));
}

#[test]
fn numerals() {
    let mut text = String::from("<");
    append_decimal(&mut text, 0);
    append_decimal(&mut text, 9);
    append_decimal(&mut text, 10);
    append_decimal(&mut text, 4096);
    append_decimal(&mut text, usize::MAX);
    assert_eq!(text, format!("<09104096{}", usize::MAX));
}

#[test]
fn fresh_memory() {
    let mut memory = MemoryInstance::allocate(Pages(2), Some(Pages(5))).unwrap();
    assert_eq!(memory.initial(), Pages(2));
    assert_eq!(memory.maximum(), Some(Pages(5)));
    assert_eq!(memory.current_size(), Pages(2));
    assert_eq!(memory.used_size(), Bytes(0));
    assert_eq!(memory.lowest_used(), u32::MAX);
    assert_eq!(memory.limits().initial, 2);
    assert_eq!(memory.limits().maximum, Some(5));
    assert_eq!(memory.get(0, 131072).unwrap(), vec![0; 131072]);
}

#[test]
fn invalid_limits() {
    assert_eq!(
        message(MemoryInstance::allocate(Pages(1), Some(Pages(0)))),
        "maximum limit 0 is less than minimum 1"
    );
    assert_eq!(
        message(MemoryInstance::allocate(Pages(65537), None)),
        "initial memory size must be at most 65536 pages"
    );
    assert_eq!(
        message(MemoryInstance::allocate(Pages(1), Some(Pages(65537)))),
        "maximum memory size must be at most 65536 pages"
    );
    assert_eq!(
        message(MemoryInstance::allocate(Pages(4294967296), None)),
        "initial (4294967296) can't be coerced to u32"
    );
    assert_eq!(
        message(MemoryInstance::allocate(Pages(0), Some(Pages(4294967297)))),
        "maximum (4294967297) can't be coerced to u32"
    );
    assert!(validate_memory(LINEAR_MEMORY_MAX_PAGES, None).is_ok());
    assert!(validate_memory(LINEAR_MEMORY_MAX_PAGES + 1, None).is_err());
}

#[test]
fn access_at_the_end_of_memory() {
    let mut memory = one_page();
    memory.set(65535, &[7]).unwrap();
    assert_eq!(memory.get(65535, 1).unwrap(), &[7]);
    assert_eq!(memory.get(65536, 0).unwrap(), &[] as &[u8]);
    assert_eq!(
        message(memory.get(65535, 2)),
        "trying to access region [65535..65537] in memory [0..65536]"
    );
    assert_eq!(
        message(memory.get(65537, 0)),
        "trying to access region [65537..65537] in memory [0..65536]"
    );
}

#[test]
fn refused_access_names_used_bytes() {
    let mut memory = one_page();
    memory.set(10, &[1, 2]).unwrap();
    assert_eq!(
        message(memory.set(65535, &[1, 2])),
        "trying to access region [65535..65537] in memory [0..12]"
    );
    assert_eq!(memory.used_size(), Bytes(12));
    assert_eq!(memory.lowest_used(), 10);
}

#[test]
fn unaddressable_access() {
    let mut memory = one_page();
    assert_eq!(
        message(memory.get(1, usize::MAX)),
        format!(
            "trying to access memory block of size {} from offset 1",
            usize::MAX
        )
    );
    assert_eq!(
        message(memory.copy(usize::MAX, 0, 1)),
        format!(
            "trying to access memory block of size 1 from offset {}",
            usize::MAX
        )
    );
    assert_eq!(
        message(memory.copy(0, usize::MAX, 2)),
        format!(
            "trying to access memory block of size 2 from offset {}",
            usize::MAX
        )
    );
    assert!(memory.clear(usize::MAX, 1, 1).is_err());
}

#[test]
fn refused_pair_names_first_region_beyond_used_bytes() {
    let mut memory = one_page();
    // The source lies in the memory, but has not been written to.
    assert_eq!(
        message(memory.copy(0, 65530, 10)),
        "trying to access region [0..10] in memory [0..0]"
    );
    memory.set(0, &[1; 10]).unwrap();
    assert_eq!(
        message(memory.copy(0, 65530, 10)),
        "trying to access region [65530..65540] in memory [0..10]"
    );
}

#[test]
fn reads_write_nothing() {
    let mut memory = one_page();
    assert_eq!(memory.get(0, 5).unwrap(), &[0; 5]);
    assert_eq!(memory.used_size(), Bytes(0));
    assert_eq!(memory.lowest_used(), u32::MAX);
    memory.set(0, &[1]).unwrap();
    assert_eq!(memory.get(0, 10).unwrap(), &[1, 0, 0, 0, 0, 0, 0, 0, 0, 0]);
    memory.with_direct_access(|buf| assert_eq!(buf, &[1, 0, 0, 0, 0, 0, 0, 0, 0, 0]));
    assert_eq!(memory.get_value::<u32>(0).unwrap(), 1);
    let mut target = [7u8; 4];
    memory.get_into(65532, &mut target).unwrap();
    assert_eq!(target, [0; 4]);
    assert_eq!(memory.used_size(), Bytes(1));
}

#[test]
fn refused_access_names_bytes_reached_by_reads() {
    let mut memory = one_page();
    memory.get(0, 10).unwrap();
    assert_eq!(
        message(memory.get(65536, 1)),
        "trying to access region [65536..65537] in memory [0..10]"
    );
    assert_eq!(
        message(memory.copy(0, 65530, 10)),
        "trying to access region [65530..65540] in memory [0..10]"
    );
}

#[test]
fn peeks_take_no_storage() {
    let mut memory = one_page();
    memory.set(2, &[5]).unwrap();
    assert_eq!(memory.peek(1, 2).unwrap().unwrap(), &[0, 5]);
    assert!(memory.peek(1, 3).is_none());
    assert_eq!(
        message(memory.peek(65535, 2).unwrap()),
        "trying to access region [65535..65537] in memory [0..3]"
    );
    assert!(memory.peek(usize::MAX, 1).unwrap().is_err());
    memory.with_direct_access(|buf| assert_eq!(buf, &[0, 0, 5]));
}

#[test]
fn writes_at_wide_offsets() {
    let mut memory = one_page();
    memory.write_at(65535, &[3]).unwrap();
    assert_eq!(memory.get(65535, 1).unwrap(), &[3]);
    assert!(memory.write_at(usize::MAX, &[]).is_err());
    assert!(memory.write_at(usize::MAX, &[1]).is_err());
}

#[test]
fn empty_writes_write_nothing() {
    let mut memory = one_page();
    let mut other = one_page();
    memory.set(7, &[]).unwrap();
    memory.clear(65536, 0, 0).unwrap();
    memory.zero(9, 0).unwrap();
    memory.copy(3, 4, 0).unwrap();
    memory.copy_nonoverlapping(3, 4, 0).unwrap();
    MemoryInstance::transfer(&mut memory, 1, Destination::SameMemory, 2, 0).unwrap();
    MemoryInstance::transfer(&mut memory, 1, Destination::OtherMemory(&mut other), 2, 0).unwrap();
    assert_eq!(memory.lowest_used(), u32::MAX);
    assert_eq!(memory.used_size(), Bytes(0));
    assert_eq!(other.lowest_used(), u32::MAX);
    assert_eq!(other.used_size(), Bytes(0));
    // They are bounds checked all the same.
    assert!(memory.clear(65537, 0, 0).is_err());
}

#[test]
fn copies_count_destination_only() {
    let mut memory = one_page();
    memory.set(0, &[1, 2, 3]).unwrap();
    // The source lies partly, then wholly, beyond what was written.
    memory.copy(2, 4, 3).unwrap();
    assert_eq!(memory.used_size(), Bytes(7));
    assert_eq!(memory.get(0, 8).unwrap(), &[1, 2, 3, 0, 3, 0, 0, 0]);
    memory.copy(60000, 0, 2).unwrap();
    assert_eq!(memory.used_size(), Bytes(7));
    assert_eq!(memory.get(0, 3).unwrap(), &[0, 0, 3]);
}

#[test]
fn writes_keep_other_bytes() {
    let mut memory = one_page();
    memory.set(0, &[1, 2, 3, 4, 5, 6]).unwrap();
    memory.set(2, &[9, 9]).unwrap();
    assert_eq!(memory.get(0, 6).unwrap(), &[1, 2, 9, 9, 5, 6]);
    memory.set(2, &[7, 7]).unwrap();
    assert_eq!(memory.get(0, 6).unwrap(), &[1, 2, 7, 7, 5, 6]);
}

#[test]
fn lowest_used_follows_writes() {
    let mut memory = one_page();
    memory.set(100, &[1]).unwrap();
    assert_eq!(memory.lowest_used(), 100);
    memory.set(200, &[1]).unwrap();
    assert_eq!(memory.lowest_used(), 100);
    memory.set_value(50, 1u8).unwrap();
    assert_eq!(memory.lowest_used(), 50);
    memory.clear(40, 0, 1).unwrap();
    assert_eq!(memory.lowest_used(), 40);
    memory.zero(35, 1).unwrap();
    assert_eq!(memory.lowest_used(), 35);
    memory.copy(200, 30, 1).unwrap();
    assert_eq!(memory.lowest_used(), 30);
    memory.copy_nonoverlapping(200, 20, 1).unwrap();
    assert_eq!(memory.lowest_used(), 20);
    memory.reset_lowest_used(1000);
    assert_eq!(memory.lowest_used(), 1000);
    memory.set(500, &[1]).unwrap();
    assert_eq!(memory.lowest_used(), 500);
}

#[test]
fn values_are_little_endian() {
    let mut memory = one_page();
    memory.set_value(0, 0x0102_0304u32).unwrap();
    assert_eq!(memory.get(0, 4).unwrap(), &[4, 3, 2, 1]);
    memory.set_value(8, -2i16).unwrap();
    assert_eq!(memory.get(8, 2).unwrap(), &[0xfe, 0xff]);
    memory.set(16, &[1, 2, 3, 4, 5, 6, 7, 8]).unwrap();
    assert_eq!(memory.get_value::<u64>(16).unwrap(), 0x0807_0605_0403_0201);
    assert_eq!(memory.get_value::<u16>(17).unwrap(), 0x0302);
}

#[test]
fn values_come_back() {
    let mut memory = one_page();
    memory.set_value(1, 200u8).unwrap();
    assert_eq!(memory.get_value::<u8>(1).unwrap(), 200);
    memory.set_value(1, -100i8).unwrap();
    assert_eq!(memory.get_value::<i8>(1).unwrap(), -100);
    memory.set_value(1, 65500u16).unwrap();
    assert_eq!(memory.get_value::<u16>(1).unwrap(), 65500);
    memory.set_value(1, i16::MIN).unwrap();
    assert_eq!(memory.get_value::<i16>(1).unwrap(), i16::MIN);
    memory.set_value(1, u32::MAX).unwrap();
    assert_eq!(memory.get_value::<u32>(1).unwrap(), u32::MAX);
    memory.set_value(1, -7i32).unwrap();
    assert_eq!(memory.get_value::<i32>(1).unwrap(), -7);
    memory.set_value(1, u64::MAX - 1).unwrap();
    assert_eq!(memory.get_value::<u64>(1).unwrap(), u64::MAX - 1);
    memory.set_value(1, i64::MIN).unwrap();
    assert_eq!(memory.get_value::<i64>(1).unwrap(), i64::MIN);
}

#[test]
fn values_are_bounds_checked() {
    let mut memory = one_page();
    memory.set_value(65532, 5u32).unwrap();
    assert_eq!(memory.get_value::<u32>(65532).unwrap(), 5);
    assert_eq!(
        message(memory.set_value(65533, 5u32)),
        "trying to access region [65533..65537] in memory [0..65536]"
    );
    assert!(memory.get_value::<u64>(65532).is_err());
}

#[test]
fn short_little_endian_buffer() {
    assert_eq!(
        u32::from_little_endian(&[1, 2, 3]),
        Err(ValueError::InvalidLittleEndianBuffer)
    );
    assert_eq!(u32::from_little_endian(&[1, 2, 3, 4, 5]), Ok(0x0403_0201));
}

#[test]
fn growth() {
    let mut memory = MemoryInstance::allocate(Pages(1), Some(Pages(3))).unwrap();
    memory.set(0, &[1, 2, 3]).unwrap();
    assert_eq!(memory.grow(Pages(0)).unwrap(), Pages(1));
    assert_eq!(memory.current_size(), Pages(1));
    assert!(memory.set(65536, &[1]).is_err());
    assert_eq!(memory.grow(Pages(1)).unwrap(), Pages(1));
    assert_eq!(memory.grow(Pages(1)).unwrap(), Pages(2));
    assert_eq!(memory.current_size(), Pages(3));
    assert_eq!(memory.used_size(), Bytes(3));
    assert_eq!(memory.get(0, 3).unwrap(), &[1, 2, 3]);
    assert_eq!(memory.get(65536, 131072).unwrap(), vec![0; 131072]);
    assert_eq!(
        message(memory.grow(Pages(1))),
        "Trying to grow memory by 1 pages when already have 3"
    );
    assert_eq!(
        message(memory.grow(Pages(65537))),
        "Trying to grow memory by more than 65536 pages"
    );
    assert_eq!(memory.current_size(), Pages(3));
    assert_eq!(memory.initial(), Pages(1));
}

#[test]
fn growth_without_maximum() {
    let mut memory = one_page();
    assert_eq!(
        message(memory.grow(Pages(65536))),
        "Trying to grow memory by 65536 pages when already have 1"
    );
    assert_eq!(memory.grow(Pages(65535)).unwrap(), Pages(1));
    assert_eq!(memory.current_size(), Pages(65536));
}

#[test]
fn refused_overlapping_copy_keeps_contents() {
    let mut memory = one_page();
    memory.set(0, &[1, 2, 3]).unwrap();
    assert_eq!(
        message(memory.copy_nonoverlapping(0, 2, 3)),
        "non-overlapping copy is used for overlapping regions"
    );
    assert_eq!(memory.used_size(), Bytes(3));
    assert_eq!(memory.get(0, 5).unwrap(), &[1, 2, 3, 0, 0]);
    // Adjacent regions and empty regions do not overlap.
    memory.copy_nonoverlapping(0, 3, 3).unwrap();
    memory.copy_nonoverlapping(1, 1, 0).unwrap();
    assert_eq!(memory.get(0, 6).unwrap(), &[1, 2, 3, 1, 2, 3]);
    assert!(memory.copy_nonoverlapping(65530, 0, 10).is_err());
}

#[test]
fn copy_onto_itself() {
    let mut memory = one_page();
    memory.set(0, &[1, 2, 3]).unwrap();
    memory.copy(0, 0, 3).unwrap();
    assert_eq!(memory.get(0, 3).unwrap(), &[1, 2, 3]);
}

#[test]
fn refused_transfer_writes_nothing() {
    let mut src = one_page();
    let mut dst = one_page();
    src.set(0, &[1, 2]).unwrap();
    assert_eq!(
        message(MemoryInstance::transfer(
            &mut src,
            0,
            Destination::OtherMemory(&mut dst),
            65530,
            10,
        )),
        "trying to access region [65530..65540] in memory [0..0]"
    );
    assert_eq!(src.used_size(), Bytes(2));
    assert_eq!(dst.used_size(), Bytes(0));
    assert_eq!(dst.lowest_used(), u32::MAX);
    assert_eq!(src.get(0, 3).unwrap(), &[1, 2, 0]);
}

#[test]
fn zero_fills_with_zeroes() {
    let mut memory = one_page();
    memory.clear(0, 0xff, 6).unwrap();
    memory.zero(2, 2).unwrap();
    assert_eq!(memory.get(0, 6).unwrap(), &[0xff, 0xff, 0, 0, 0xff, 0xff]);
    assert!(memory.zero(65536, 1).is_err());
}

#[test]
fn created_above_maximum() {
    let mut memory = MemoryInstance::new(Pages(3), Some(Pages(1)), Buffer::Growable(Vec::new()));
    assert_eq!(memory.limits().initial, 3);
    assert_eq!(memory.limits().maximum, Some(1));
    assert_eq!(memory.get(0, 196608).unwrap(), vec![0; 196608]);
    assert!(memory.get(0, 196609).is_err());
    assert!(memory.grow(Pages(1)).is_err());
    assert_eq!(memory.grow(Pages(0)).unwrap(), Pages(3));
}

#[test]
fn refused_get_into_keeps_target() {
    let mut memory = one_page();
    let mut target = [1u8, 2, 3];
    assert!(memory.get_into(65535, &mut target).is_err());
    assert_eq!(target, [1, 2, 3]);
}

#[test]
fn regions() {
    let a = CheckedRegion { offset: 2, size: 4 };
    let b = CheckedRegion { offset: 5, size: 2 };
    let c = CheckedRegion { offset: 6, size: 2 };
    let empty = CheckedRegion { offset: 3, size: 0 };
    assert_eq!(a.range(), 2..6);
    assert!(a.intersects(&b));
    assert!(b.intersects(&a));
    assert!(!a.intersects(&c));
    assert!(!a.intersects(&empty));
    assert!(!empty.intersects(&empty));
}

#[test]
fn given_storage() {
    let storage = leaked(131072);
    storage[70000] = 9;
    let address = storage.as_ptr() as usize;
    let mut memory = MemoryInstance::with_memory(65536, storage).unwrap();
    assert_eq!(memory.initial(), Pages(2));
    assert_eq!(memory.maximum(), Some(Pages(2)));
    assert_eq!(memory.current_size(), Pages(2));
    assert_eq!(memory.used_size(), Bytes(0));
    memory.with_direct_access(|buf| {
        assert_eq!(buf.len(), 131072);
        assert_eq!(buf.as_ptr() as usize, address);
    });
    assert_eq!(memory.get(70000, 1).unwrap(), &[9]);
    assert_eq!(memory.used_size(), Bytes(0));
    memory.set(10, &[5]).unwrap();
    assert_eq!(memory.used_size(), Bytes(11));
    assert_eq!(
        message(memory.get(131072, 1)),
        "trying to access region [131072..131073] in memory [0..131072]"
    );
    memory.copy(70000, 100, 1).unwrap();
    assert_eq!(memory.get(100, 1).unwrap(), &[9]);
    assert_eq!(memory.used_size(), Bytes(101));
    memory.set(131071, &[5]).unwrap();
    assert_eq!(memory.used_size(), Bytes(131072));
    assert_eq!(memory.get(131070, 2).unwrap(), &[0, 5]);
    assert!(memory.set(131071, &[5, 5]).is_err());
    assert_eq!(
        message(memory.grow(Pages(1))),
        "Trying to grow memory by 1 pages when already have 2"
    );
    memory.with_direct_access_mut(|buf| {
        buf.resize(3, 1);
        assert_eq!(buf.as_slice().len(), 131072);
        buf.as_mut_slice()[0] = 8;
    });
    assert_eq!(memory.get(0, 2).unwrap(), &[8, 0]);
    memory.with_direct_access(|buf| assert_eq!(buf.as_ptr() as usize, address));
}

#[test]
fn refused_storage() {
    assert_eq!(
        message(MemoryInstance::with_memory(4096, leaked(65536))),
        "Buffer address must be aligned to page size"
    );
    assert_eq!(
        message(MemoryInstance::with_memory(0, leaked(65537))),
        "Size 65537 must be multiple of page size"
    );
    assert_eq!(
        message(MemoryInstance::check_storage(0, 65536 * 65537)),
        "Memory size must be at most 65536 pages"
    );
    assert_eq!(
        message(MemoryInstance::check_storage(0, usize::MAX - 65535)),
        "Memory size must be at most 65536 pages"
    );
    assert_eq!(
        MemoryInstance::check_storage(131072, 65536 * 65536).unwrap(),
        Pages(65536)
    );
}

#[test]
fn direct_access_lengthens_storage() {
    let mut memory = one_page();
    memory.set(0, &[1]).unwrap();
    let seen = memory.with_direct_access_mut(|buf| {
        buf.resize(8192, 7);
        buf.as_slice().len()
    });
    assert_eq!(seen, 8192);
    assert_eq!(memory.used_size(), Bytes(1));
    assert_eq!(
        message(memory.get(65536, 1)),
        "trying to access region [65536..65537] in memory [0..1]"
    );
    memory.with_direct_access(|buf| assert_eq!(buf.len(), 8192));
    assert_eq!(memory.get(0, 3).unwrap(), &[1, 7, 7]);
    // The access ended within the storage and beyond all others.
    memory.with_direct_access(|buf| assert_eq!(buf, &[1, 7, 7]));
    assert_eq!(memory.get(0, 5).unwrap(), &[1, 7, 7, 0, 0]);
}

#[test]
fn direct_access_lengthens_storage_beyond_memory() {
    let mut memory = one_page();
    memory.with_direct_access_mut(|buf| buf.resize(65546, 1));
    memory.with_direct_access(|buf| assert_eq!(buf.len(), 65546));
    assert!(memory.get(65536, 1).is_err());
    memory.grow(Pages(1)).unwrap();
    assert_eq!(memory.get(65536, 1).unwrap(), &[1]);
    assert_eq!(memory.get(65536, 2).unwrap(), &[1, 0]);
}

#[test]
fn direct_access_shortens_storage() {
    let mut memory = one_page();
    memory.set(0, &[1, 2, 3]).unwrap();
    memory.with_direct_access_mut(|buf| buf.resize(1, 0));
    assert_eq!(memory.used_size(), Bytes(3));
    memory.with_direct_access(|buf| assert_eq!(buf, &[1]));
    memory.copy(0, 1, 2).unwrap();
    assert_eq!(memory.get(0, 4).unwrap(), &[1, 1, 0, 0]);
}

#[test]
fn sizes_after_growth() {
    assert_eq!(
        MemoryInstance::growth(Pages(2), Some(Pages(5)), Pages(3)).unwrap(),
        Pages(5)
    );
    assert_eq!(
        MemoryInstance::growth(Pages(2), None, Pages(0)).unwrap(),
        Pages(2)
    );
    assert_eq!(
        message(MemoryInstance::growth(Pages(2), Some(Pages(5)), Pages(4))),
        "Trying to grow memory by 4 pages when already have 2"
    );
}

#[test]
fn buffers_resize_by_their_kind() {
    let mut growable = Buffer::Growable(vec![1, 2, 3]);
    growable.resize(5, 9);
    assert_eq!(growable.as_slice(), &[1, 2, 3, 9, 9]);
    growable.resize(1, 9);
    assert_eq!(growable.as_slice(), &[1]);
    let mut fixed = Buffer::Fixed(leaked(2));
    fixed.resize(5, 9);
    assert_eq!(fixed.as_slice(), &[0, 0]);
}
